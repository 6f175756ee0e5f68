use ethrex_core::account::{empty_keccak_hash, empty_trie_hash, AccountInfo, AccountState, AccountUpdate};
use ethrex_core::block::{Block, BlockBody, BlockHeader};
use ethrex_core::blockchain::batch::{
    bals_to_store, batch_state, log_batch_progress, BatchBlockProcessingFailure, BatchRun,
    BatchStep, HashWalk,
};
use ethrex_core::blockchain::checks::{
    find_parent_header, is_canonical, latest_canonical_block_hash, missing_parent,
    records_access_list, storage_root_of, validate_before_execution, validate_execution,
    validate_l1_transaction_types, validate_state_root, BlockChecks, BlockchainType,
    ExecutionChecks,
};
use ethrex_core::blockchain::phases::{time_phases, Phase, PipelineInstants};
use ethrex_core::blockchain::pipeline::{
    bal_to_store, import_result, imported_bal, imported_witness, join_results, plan_pipeline,
    take_prewarmed, Execution, Import, ImportEvent, ImportPhase, Imported, PrewarmedEntry,
    Warming, WitnessPlan,
};
use ethrex_core::blockchain::witness::{
    deduplicate, embedded_root, fee_config_for, first_needed_block_hash, first_of_batch,
    first_block_number, gather_codes, select_storage_roots, touched_accounts, witness_code,
    HeaderAnswer, HeaderWalk, WitnessNodes, WitnessSource,
};
use ethrex_core::blockchain::{Blockchain, BlockchainOptions};
use ethrex_core::chain_error::{ChainError, EvmError, InvalidBlockError};
use ethrex_core::config::ChainConfig;
use ethrex_core::table::Table;
use ethrex_core::transaction::{Transaction, TxType};
use ethrex_core::word::{Address, H256, U256};

fn hash(n: u128) -> H256 {
    H256 { hi: 0, lo: n }
}

fn address(n: u128) -> Address {
    Address { hi: 0, lo: n }
}

fn config(amsterdam: Option<u64>) -> ChainConfig {
    ChainConfig {
        chain_id: 1,
        eip155_block: Some(0),
        shanghai_time: Some(0),
        cancun_time: Some(0),
        prague_time: Some(0),
        osaka_time: Some(0),
        amsterdam_time: amsterdam,
        hegota_time: None,
    }
}

fn header(number: u64, parent: u128) -> BlockHeader {
    BlockHeader {
        parent_hash: hash(parent),
        ommers_hash: hash(0),
        coinbase: address(0),
        state_root: hash(1000 + number as u128),
        transactions_root: hash(0),
        receipts_root: hash(0),
        logs_bloom: Vec::new(),
        difficulty: U256::zero(),
        number,
        gas_limit: 30_000_000,
        gas_used: 5,
        timestamp: 10 * number,
        extra_data: Vec::new(),
        prev_randao: hash(0),
        nonce: 0,
        base_fee_per_gas: Some(1),
        withdrawals_root: None,
        blob_gas_used: None,
        excess_blob_gas: None,
        parent_beacon_block_root: None,
        requests_hash: None,
        block_access_list_hash: None,
        slot_number: None,
    }
}

fn transaction(tx_type: TxType) -> Transaction {
    Transaction {
        tx_type,
        hash: hash(1),
        nonce: 0,
        gas_limit: 21000,
        to: Some(address(1)),
        value: U256::zero(),
        data_len: 0,
        gas_fee_cap: U256::zero(),
        gas_tip_cap: U256::zero(),
        max_priority_fee: None,
        max_fee_per_gas: None,
        max_fee_per_blob_gas: None,
        blob_hash_count: 0,
        authorization_count: 0,
        chain_id: None,
        protected: true,
        encoded_len: 1,
        expiry_deadline: None,
    }
}

fn block(types: &[TxType]) -> Block {
    Block {
        header: header(5, 4),
        body: BlockBody {
            transactions: types.iter().map(|t| transaction(*t)).collect(),
            withdrawals: None,
        },
    }
}

fn rule() -> InvalidBlockError {
    InvalidBlockError::Rule("broken".to_string())
}

#[test]
fn state_root_must_match() {
    assert!(validate_state_root(&header(1, 0), hash(1001)).is_ok());
    assert!(matches!(
        validate_state_root(&header(1, 0), hash(1002)),
        Err(ChainError::InvalidBlock(InvalidBlockError::StateRootMismatch))
    ));
}

#[test]
fn rollup_transactions_are_refused_on_the_base_layer() {
    let fine = block(&[TxType::Legacy, TxType::EIP4844, TxType::Frame]);
    assert!(validate_l1_transaction_types(BlockchainType::L1, &fine).is_ok());
    let token = block(&[TxType::Legacy, TxType::FeeToken, TxType::Privileged]);
    assert!(matches!(
        validate_l1_transaction_types(BlockchainType::L1, &token),
        Err(ChainError::InvalidBlock(InvalidBlockError::UnsupportedTransactionType(0x7d)))
    ));
    let privileged = block(&[TxType::Privileged]);
    assert!(matches!(
        validate_l1_transaction_types(BlockchainType::L1, &privileged),
        Err(ChainError::InvalidBlock(InvalidBlockError::UnsupportedTransactionType(0x7e)))
    ));
    assert!(validate_l1_transaction_types(BlockchainType::L2, &privileged).is_ok());
}

#[test]
fn first_failing_check_decides() {
    let b = block(&[TxType::FeeToken]);
    let checks = |pre: bool, body: Option<bool>| BlockChecks {
        pre_execution: if pre { Ok(()) } else { Err(rule()) },
        body: body.map(|ok| if ok { Ok(()) } else { Err("body".to_string()) }),
    };
    assert!(matches!(
        validate_before_execution(BlockchainType::L1, &b, checks(false, Some(false))),
        Err(ChainError::InvalidBlock(InvalidBlockError::Rule(_)))
    ));
    assert!(matches!(
        validate_before_execution(BlockchainType::L1, &b, checks(true, Some(false))),
        Err(ChainError::InvalidBlock(InvalidBlockError::UnsupportedTransactionType(_)))
    ));
    assert!(matches!(
        validate_before_execution(BlockchainType::L2, &b, checks(true, Some(false))),
        Err(ChainError::InvalidBlock(InvalidBlockError::InvalidBody(_)))
    ));
    assert!(validate_before_execution(BlockchainType::L2, &b, checks(true, Some(true))).is_ok());
    assert!(validate_before_execution(BlockchainType::L2, &b, checks(true, None)).is_ok());
}

fn execution(
    gas: bool,
    receipts: bool,
    requests: bool,
    produced: Option<bool>,
    header_matches: Option<bool>,
) -> ExecutionChecks {
    let check = |ok: bool| if ok { Ok(()) } else { Err(rule()) };
    ExecutionChecks {
        gas_used: check(gas),
        receipts: check(receipts),
        requests: check(requests),
        produced_bal: produced.map(check),
        header_bal_matches: header_matches,
    }
}

#[test]
fn forged_access_list_is_refused() {
    let c = config(Some(0));
    assert!(validate_execution(execution(true, true, true, None, Some(true)), &c, 50).is_ok());
    assert!(matches!(
        validate_execution(execution(true, true, true, None, Some(false)), &c, 50),
        Err(ChainError::InvalidBlock(InvalidBlockError::BlockAccessListHashMismatch))
    ));
    let before = config(Some(51));
    assert!(validate_execution(execution(true, true, true, None, Some(false)), &before, 50).is_ok());
    assert!(validate_execution(execution(true, true, true, Some(true), Some(false)), &c, 50).is_ok());
    for bad in [
        execution(false, true, true, None, None),
        execution(true, false, true, None, None),
        execution(true, true, false, None, None),
        execution(true, true, true, Some(false), None),
    ] {
        assert!(matches!(
            validate_execution(bad, &c, 50),
            Err(ChainError::InvalidBlock(InvalidBlockError::Rule(_)))
        ));
    }
    assert!(records_access_list(&c, &header(5, 4)));
    assert!(!records_access_list(&before, &header(5, 4)));
}

#[test]
fn parents_and_heads_are_looked_up() {
    assert_eq!(find_parent_header(Ok(Some(header(4, 3)))).unwrap().number, 4);
    assert!(matches!(find_parent_header(Ok(None)), Err(ChainError::ParentNotFound)));
    assert!(matches!(
        find_parent_header(Err("io".to_string())),
        Err(ChainError::StoreError(_))
    ));
    assert!(matches!(missing_parent(Ok(())), ChainError::ParentNotFound));
    assert!(matches!(missing_parent(Err("io".to_string())), ChainError::StoreError(_)));
    assert_eq!(latest_canonical_block_hash(Ok(Some(hash(3)))).unwrap(), hash(3));
    match latest_canonical_block_hash(Ok(None)) {
        Err(ChainError::StoreError(why)) => assert_eq!(why, "Could not find latest valid hash"),
        _ => panic!("expected an error"),
    }
    assert!(latest_canonical_block_hash(Err("io".to_string())).is_err());
    assert!(is_canonical(Some(hash(3)), hash(3)));
    assert!(!is_canonical(Some(hash(3)), hash(4)));
    assert!(!is_canonical(None, hash(4)));
    assert_eq!(storage_root_of(None), empty_trie_hash());
    let mut state = AccountState::empty();
    state.storage_root = hash(9);
    assert_eq!(storage_root_of(Some(state)), hash(9));
}

#[test]
fn default_options() {
    let o = BlockchainOptions::default();
    assert_eq!(o.max_mempool_size, 10_000);
    assert_eq!(o.max_queued_txs_per_account, 64);
    assert_eq!(o.gap_admit_occupancy_threshold, 90);
    assert_eq!(o.kind, BlockchainType::L1);
    assert!(o.bal_parallel_exec_enabled && o.bal_prefetch_enabled && o.bal_parallel_trie_enabled);
    assert!(!o.precompute_witnesses && !o.perf_logs_enabled);
    assert!(o.precompile_cache_enabled);
    let mut chain: Blockchain<u8, u8> = Blockchain::new(o);
    assert!(!chain.is_synced());
    chain.set_synced();
    assert!(chain.is_synced());
    chain.set_not_synced();
    assert!(!chain.is_synced());
}

#[test]
fn pipeline_streams_unless_everything_is_in_the_list() {
    let mut o = BlockchainOptions::default();
    let p = plan_pipeline(&o, true, false);
    assert!(p.parallel_exec && p.optimistic && p.prefetch_storage && !p.channel);
    assert!(p.merkleizes_from_list());
    assert_eq!(p.warming, Warming::FromAccessList);
    let p = plan_pipeline(&o, false, false);
    assert!(p.channel && !p.optimistic && !p.prefetch_storage);
    assert_eq!(p.warming, Warming::Speculative);
    o.bal_parallel_trie_enabled = false;
    assert!(plan_pipeline(&o, true, false).channel);
    o.bal_parallel_trie_enabled = true;
    o.bal_parallel_exec_enabled = false;
    let p = plan_pipeline(&o, true, false);
    assert!(p.channel && p.optimistic && !p.merkleizes_from_list());
    o.bal_prefetch_enabled = false;
    assert_eq!(plan_pipeline(&o, true, false).warming, Warming::Speculative);
    o.bal_parallel_exec_enabled = true;
    assert_eq!(plan_pipeline(&o, true, false).warming, Warming::Idle);
}

#[test]
fn witness_is_collected_from_the_execution_alone() {
    let o = BlockchainOptions::default();
    for with_bal in [true, false] {
        let p = plan_pipeline(&o, with_bal, true);
        assert_eq!(p.warming, Warming::Absent);
        assert!(!p.parallel_exec && !p.prefetch_storage && !p.optimistic && p.channel);
    }
}

#[test]
fn prewarmed_cache_must_fit_the_block() {
    let entry = |parent: u128, fork: u8| Some(PrewarmedEntry { parent_hash: hash(parent), fork, cache: 7u32 });
    let mut slot = entry(1, 2);
    assert_eq!(take_prewarmed(&mut slot, true, hash(1), 2), None);
    assert!(slot.is_some());
    assert_eq!(take_prewarmed(&mut slot, false, hash(1), 2), Some(7));
    assert!(slot.is_none());
    let mut other = entry(1, 2);
    assert_eq!(take_prewarmed(&mut other, false, hash(2), 2), None);
    assert!(other.is_none());
    let mut forked = entry(1, 2);
    assert_eq!(take_prewarmed(&mut forked, false, hash(1), 3), None);
}

#[test]
fn trie_errors_are_reported_first() {
    let merkle_failed: Result<u8, String> = Err("trie".to_string());
    let exec_failed: Result<u8, ChainError> = Err(ChainError::ParentNotFound);
    assert!(matches!(
        join_results(merkle_failed, Err::<u8, ChainError>(ChainError::ParentNotFound)),
        Err(ChainError::StoreError(_))
    ));
    assert!(matches!(
        join_results(Ok::<u8, String>(1), exec_failed),
        Err(ChainError::ParentNotFound)
    ));
    assert_eq!(join_results(Ok::<u8, String>(1), Ok::<u8, ChainError>(2)).unwrap(), (1, 2));
}

#[test]
fn access_list_to_keep() {
    assert_eq!(bal_to_store(Some(1), Some(2)), Some(1));
    assert_eq!(bal_to_store(None, Some(2)), Some(2));
    assert_eq!(bal_to_store::<u8>(None, None), None);
}

fn imported(stored: bool, witness: Option<u8>) -> Result<Imported<u8, u8>, ChainError> {
    Ok(Imported {
        produced_bal: Some(4),
        witness,
        stored: if stored { Ok(()) } else { Err(ChainError::ParentStateNotFound) },
    })
}

#[test]
fn outcome_of_an_import() {
    assert!(import_result(imported(true, None)).is_ok());
    assert!(matches!(
        import_result(imported(false, None)),
        Err(ChainError::ParentStateNotFound)
    ));
    assert!(import_result::<u8, u8>(Err(ChainError::ParentNotFound)).is_err());
    assert_eq!(imported_bal(imported(true, None)).unwrap(), Some(4));
    assert!(imported_bal(imported(false, None)).is_err());
    assert_eq!(imported_witness(imported(true, Some(9))).unwrap(), 9);
    assert!(imported_witness(imported(false, Some(9))).is_err());
    assert!(matches!(
        imported_witness(imported(true, None)),
        Err(ChainError::WitnessGeneration(_))
    ));
}

#[test]
fn import_without_parent_is_kept_as_pending() {
    let o = BlockchainOptions::default();
    let i = Import::start(WitnessPlan::new(&o, true, false));
    let i = i.step(ImportEvent::Parent(false));
    assert!(matches!(i.phase, ImportPhase::KeepPending));
    let i = i.step(ImportEvent::PendingKept(Ok(())));
    assert!(matches!(i.phase, ImportPhase::Failed(ChainError::ParentNotFound)));
    let i = i.step(ImportEvent::Parent(true));
    assert!(matches!(i.phase, ImportPhase::Failed(ChainError::ParentNotFound)));
}

#[test]
fn import_makes_the_witness_before_the_block_is_stored() {
    let mut o = BlockchainOptions::default();
    o.precompute_witnesses = true;
    let plan = WitnessPlan::new(&o, true, true);
    assert!(plan.collect());
    let i = Import::start(plan).step(ImportEvent::Parent(true));
    let i = i.step(ImportEvent::Executed(Ok(Execution { with_updates: true, with_bal: true })));
    assert!(matches!(i.phase, ImportPhase::MakeWitness));
    let i = i.step(ImportEvent::WitnessMade(Ok(())));
    assert!(matches!(i.phase, ImportPhase::StoreWitness));
    assert!(i.hands_back);
    let i = i.step(ImportEvent::WitnessStored(Ok(())));
    assert!(matches!(i.phase, ImportPhase::StoreAccessList));
    let i = i.step(ImportEvent::AccessListStored);
    assert!(matches!(i.phase, ImportPhase::StoreBlock));
    let i = i.step(ImportEvent::BlockStored(Ok(())));
    assert!(matches!(i.phase, ImportPhase::Stored(Ok(()))));
}

#[test]
fn import_fails_with_its_steps() {
    let o = BlockchainOptions::default();
    let plan = WitnessPlan::new(&o, true, true);
    assert!(!plan.store);
    let ready = || Import::start(plan).step(ImportEvent::Parent(true));
    let i = ready().step(ImportEvent::Executed(Err(ChainError::ParentStateNotFound)));
    assert!(matches!(i.phase, ImportPhase::Failed(ChainError::ParentStateNotFound)));
    let done = Execution { with_updates: true, with_bal: false };
    let i = ready().step(ImportEvent::Executed(Ok(done)));
    let i = i.step(ImportEvent::WitnessMade(Err(ChainError::ParentStateNotFound)));
    assert!(matches!(i.phase, ImportPhase::Failed(_)));
    let i = ready().step(ImportEvent::Executed(Ok(done)));
    let i = i.step(ImportEvent::WitnessMade(Ok(())));
    assert!(matches!(i.phase, ImportPhase::StoreBlock));
    let i = i.step(ImportEvent::BlockStored(Err(ChainError::ParentStateNotFound)));
    assert!(matches!(i.phase, ImportPhase::Stored(Err(_))));
}

#[test]
fn batch_progress_is_reported_at_its_marks() {
    assert_eq!(log_batch_progress(10, 2), Vec::<u32>::new());
    assert_eq!(log_batch_progress(100, 20), vec![20]);
    assert_eq!(log_batch_progress(100, 21), Vec::<u32>::new());
    assert_eq!(log_batch_progress(1024, 819), vec![80]);
    assert_eq!(log_batch_progress(11, 4), vec![40]);
    assert_eq!(log_batch_progress(11, 6), vec![60]);
}

#[test]
fn hash_walk_gathers_the_reach_of_the_batch() {
    let blocks = vec![(300u64, hash(300)), (301, hash(301))];
    let mut walk = HashWalk::start(&blocks, &header(299, 298), hash(299));
    let mut rounds = 0;
    while let Some(ask) = walk.next() {
        rounds += 1;
        walk.answered(Some(hash(ask.lo - 1)));
    }
    assert_eq!(rounds, 298 - 44);
    assert_eq!(walk.cache.get(301), Some(&hash(301)));
    assert_eq!(walk.cache.get(299), Some(&hash(299)));
    assert_eq!(walk.cache.get(298), Some(&hash(298)));
    assert_eq!(walk.cache.get(45), Some(&hash(45)));
    assert_eq!(walk.cache.get(44), None);
    let mut stopped = HashWalk::start(&blocks, &header(299, 298), hash(299));
    assert!(stopped.next().is_some());
    stopped.answered(None);
    assert!(stopped.next().is_none());
    assert_eq!(stopped.cache.len(), 4);
}

#[test]
fn failed_batch_names_the_block_and_the_one_before() {
    assert!(matches!(
        BatchRun::start(Vec::new()),
        Err((ChainError::Custom(_), None))
    ));
    let mut run = BatchRun::start(vec![hash(1), hash(2), hash(3)]).unwrap_or_else(|_| panic!("batch"));
    assert!(matches!(run.next(false), Ok(BatchStep::ExecuteFirst)));
    assert!(matches!(run.next(true), Err((ChainError::Custom(_), None))));
    match run.executed(Err(ChainError::ParentNotFound), 0, 0) {
        Err((ChainError::ParentNotFound, Some(failure))) => assert_eq!(
            failure,
            BatchBlockProcessingFailure { last_valid_hash: hash(0), failed_block_hash: hash(1) }
        ),
        _ => panic!("expected a failure"),
    }
    assert!(run.executed(Ok(()), 100, 2).is_ok());
    assert!(matches!(run.next(false), Ok(BatchStep::Execute { at: 1 })));
    match run.executed(Err(ChainError::ParentNotFound), 0, 0) {
        Err((_, Some(failure))) => assert_eq!(
            failure,
            BatchBlockProcessingFailure { last_valid_hash: hash(1), failed_block_hash: hash(2) }
        ),
        _ => panic!("expected a failure"),
    }
    assert!(run.executed(Ok(()), 50, 1).is_ok());
    assert!(run.executed(Ok(()), 25, 0).is_ok());
    assert!(matches!(run.next(true), Ok(BatchStep::Finished)));
    assert_eq!(run.total_gas_used, 175);
    assert_eq!(run.transactions_count, 3);
}

#[test]
fn state_of_a_batch_is_that_of_its_last_block() {
    let last = header(5, 4);
    assert_eq!(batch_state(Ok(()), Ok(Some((hash(1005), 7u8))), &last).unwrap_or(0), 7);
    assert!(matches!(
        batch_state(Ok(()), Ok(Some((hash(1), 7u8))), &last),
        Err((ChainError::InvalidBlock(InvalidBlockError::StateRootMismatch), None))
    ));
    assert!(matches!(
        batch_state::<u8>(Ok(()), Ok(None), &last),
        Err((ChainError::ParentStateNotFound, None))
    ));
    assert!(matches!(
        batch_state::<u8>(Ok(()), Err("io".to_string()), &last),
        Err((ChainError::StoreError(_), None))
    ));
    assert!(matches!(
        batch_state::<u8>(Err(EvmError::Custom("vm".to_string())), Ok(None), &last),
        Err((ChainError::EvmError(_), None))
    ));
    assert_eq!(bals_to_store(&vec![Some(true), None, Some(false), Some(true)]), vec![0, 3]);
    assert_eq!(bals_to_store(&Vec::new()), Vec::<usize>::new());
}

#[test]
fn keys_are_kept_in_the_order_of_their_first_access() {
    assert_eq!(
        deduplicate(&vec![hash(3), hash(1), hash(3), hash(2), hash(1)]),
        vec![hash(3), hash(1), hash(2)]
    );
    assert!(deduplicate(&Vec::new()).is_empty());
}

#[test]
fn oldest_asked_block_is_needed() {
    let mut asked: Table<u64, H256> = Table::new();
    assert_eq!(first_needed_block_hash(&asked, 100, hash(99)), hash(99));
    asked.insert(99, hash(99));
    assert_eq!(first_needed_block_hash(&asked, 100, hash(5)), hash(5));
    asked.insert(98, hash(98));
    asked.insert(42, hash(42));
    asked.insert(70, hash(70));
    assert_eq!(first_needed_block_hash(&asked, 100, hash(99)), hash(42));
    assert_eq!(first_needed_block_hash(&asked, 0, hash(99)), hash(99));
}

#[test]
fn headers_are_walked_back_to_the_needed_one() {
    let mut walk = HeaderWalk::start(hash(3), &header(6, 5), hash(6));
    let mut asked = Vec::new();
    while let Some(ask) = walk.next() {
        asked.push(ask);
        let n = ask.lo as u64;
        walk.answered(HeaderAnswer::Found(header(n, n as u128 - 1), ask)).unwrap();
    }
    assert_eq!(asked, vec![hash(5), hash(4), hash(3)]);
    assert_eq!(walk.headers.len(), 3);
    assert_eq!(walk.headers[2].number, 3);
    assert_eq!(walk.hashes, asked);
    assert_eq!((walk.last, walk.last_parent), (hash(6), hash(5)));
    let mut lost = HeaderWalk::start(hash(3), &header(6, 5), hash(6));
    match lost.answered(HeaderAnswer::Missing) {
        Err(ChainError::WitnessGeneration(why)) => {
            assert_eq!(why, "Failed to get block 5 header")
        }
        _ => panic!("expected an error"),
    }
    assert!(matches!(
        lost.answered(HeaderAnswer::Failed("io".to_string())),
        Err(ChainError::StoreError(_))
    ));
}

#[test]
fn only_storage_that_was_read_belongs_into_a_witness() {
    let mut nodes: Table<H256, u8> = Table::new();
    nodes.insert(hash(50), 1);
    nodes.insert(empty_trie_hash(), 1);
    let with_root = |root: H256| {
        let mut state = AccountState::empty();
        state.storage_root = root;
        Some(state)
    };
    let roots = select_storage_roots(
        &vec![
            (hash(1), None),
            (hash(2), with_root(empty_trie_hash())),
            (hash(3), with_root(hash(51))),
            (hash(4), with_root(hash(50))),
        ],
        &nodes,
    );
    assert_eq!(roots, vec![(hash(4), hash(50))]);
    assert_eq!(embedded_root(Some(3)).unwrap(), 3);
    assert!(matches!(embedded_root::<u8>(None), Err(ChainError::Custom(_))));
}

#[test]
fn witness_holds_all_nodes_or_the_root() {
    let empty: WitnessNodes<u8> = WitnessNodes::new();
    let only_root = empty.finish(Some((hash(9), 9)));
    assert_eq!(only_root.len(), 1);
    assert_eq!(only_root.get(hash(9)), Some(&9));
    let none: WitnessNodes<u8> = WitnessNodes::new();
    assert!(none.finish(None).is_empty());
    let mut nodes: WitnessNodes<u8> = WitnessNodes::new();
    nodes.add_storage(vec![(hash(1), 1), (hash(2), 2), (hash(1), 11)]);
    let mut state: Table<H256, u8> = Table::new();
    state.insert(hash(2), 22);
    state.insert(hash(3), 33);
    nodes.add_state(state);
    let mut later: Table<H256, u8> = Table::new();
    later.insert(hash(3), 44);
    nodes.add_state(later);
    let all = nodes.finish(Some((hash(9), 9)));
    assert_eq!(all.len(), 3);
    assert_eq!(all.get(hash(1)), Some(&11));
    assert_eq!(all.get(hash(2)), Some(&22));
    assert_eq!(all.get(hash(3)), Some(&44));
    assert_eq!(all.get(hash(9)), None);
}

#[test]
fn touched_accounts_are_those_updated_or_opened() {
    let update = AccountUpdate {
        address: address(1),
        removed: false,
        info: Some(AccountInfo { code_hash: empty_keccak_hash(), balance: U256::zero(), nonce: 0 }),
        code: None,
        added_storage: Table::new(),
        removed_storage: false,
    };
    let touched = touched_accounts(&vec![update], &vec![address(2), address(1)]);
    assert_eq!(touched.len(), 2);
    assert!(touched.contains_key(address(1)));
    assert!(touched.contains_key(address(2)));
}

#[test]
fn witness_needs_codes_blocks_and_fees() {
    assert_eq!(witness_code(Ok(Some(vec![1]))).unwrap(), vec![1]);
    for missing in [Ok(None), Err("io".to_string())] {
        match witness_code(missing) {
            Err(ChainError::WitnessGeneration(why)) => {
                assert_eq!(why, "Failed to get account code")
            }
            _ => panic!("expected an error"),
        }
    }
    assert_eq!(*first_of_batch(&vec![4, 5]).unwrap(), 4);
    assert!(matches!(
        first_of_batch::<u8>(&Vec::new()),
        Err(ChainError::WitnessGeneration(_))
    ));
    let configs = Some(vec![10u8, 20]);
    assert_eq!(fee_config_for(BlockchainType::L1, &configs, 0).unwrap(), None);
    assert_eq!(fee_config_for(BlockchainType::L2, &configs, 1).unwrap(), Some(&20));
    match fee_config_for(BlockchainType::L2, &configs, 2) {
        Err(ChainError::WitnessGeneration(why)) => {
            assert_eq!(why, "FeeConfig not found for witness generation")
        }
        _ => panic!("expected an error"),
    }
    match fee_config_for::<u8>(BlockchainType::L2, &None, 0) {
        Err(ChainError::WitnessGeneration(why)) => {
            assert_eq!(why, "L2Config not found for witness generation")
        }
        _ => panic!("expected an error"),
    }
}

#[test]
fn phases_of_an_import_are_timed() {
    let mut at = PipelineInstants {
        start: 100,
        validated: 120,
        exec_merkle_start: 130,
        merkle_start: 135,
        exec_end: 180,
        merkle_end: 200,
        exec_merkle_end: 210,
        stored: 240,
    };
    let times = time_phases(&at, 60).unwrap();
    assert_eq!((times.total, times.validate, times.execute), (140, 20, 50));
    assert_eq!((times.merkle_concurrent, times.merkle_drain), (50, 30));
    assert_eq!((times.merkle_start_delay, times.store), (5, 30));
    assert_eq!((times.warmer_early, times.warmer_distance), (false, 10));
    assert_eq!(times.bottleneck, Phase::Execute);
    assert!(times.validate + times.execute + times.merkle_drain + times.store <= times.total);
    // Of phases that took as long as each other the last one counts.
    at.stored = 260;
    assert_eq!(time_phases(&at, 20).unwrap().bottleneck, Phase::Store);
    // The trie may be done before the block is executed.
    at.merkle_end = 150;
    at.exec_merkle_end = 170;
    let times = time_phases(&at, 20).unwrap();
    assert_eq!((times.merkle_concurrent, times.merkle_drain), (20, 0));
    assert_eq!((times.warmer_early, times.warmer_distance), (true, 30));
    at.stored = 100;
    assert!(time_phases(&at, 20).is_none());
}

#[test]
fn codes_of_a_witness_keep_their_order() {
    let codes = gather_codes(vec![Ok(Some(vec![1])), Ok(Some(vec![2, 3])), Ok(Some(vec![1]))]);
    assert_eq!(codes.unwrap(), vec![vec![1], vec![2, 3], vec![1]]);
    assert!(gather_codes(Vec::new()).unwrap().is_empty());
    for missing in [Ok(None), Err("io".to_string())] {
        match gather_codes(vec![Ok(Some(vec![1])), missing]) {
            Err(ChainError::WitnessGeneration(why)) => {
                assert_eq!(why, "Failed to get account code")
            }
            _ => panic!("expected a missing code"),
        }
    }
}

#[test]
fn witnesses_start_at_their_first_block() {
    assert_eq!(first_block_number(WitnessSource::Replay { first: &header(6, 5) }), 6);
    assert_eq!(first_block_number(WitnessSource::Updates { parent: &header(5, 4) }), 5);
}
