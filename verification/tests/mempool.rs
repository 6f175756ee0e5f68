use ethrex_core::account::{empty_keccak_hash, AccountInfo};
use ethrex_core::block::{Block, BlockBody, BlockHeader};
use ethrex_core::blockchain::admission::{
    check_after_simulation, check_before_simulation, validate_transaction, AdmissionFacts,
    AdmissionLimits, AdmissionRules, Admitted, FrameChecks, Head, MempoolError, PaymasterFacts, PoolFacts, SenderCode, Simulation, StaticFacts,
};
use ethrex_core::blockchain::checks::BlockchainType;
use ethrex_core::blockchain::pool::{
    block_transaction_hashes, is_stale, p2p_form, queued_cap, revalidate_frame_tx, FrameFate,
    NonceCache, PeerError, PeerForm, QueuedCap, RevalidationFacts, Submission, SubmissionEvent,
    SubmissionPhase,
};
use ethrex_core::config::ChainConfig;
use ethrex_core::transaction::{Transaction, TxType};
use ethrex_core::word::{Address, H256, U256};

fn hash(n: u128) -> H256 {
    H256 { hi: 0, lo: n }
}

fn address(n: u128) -> Address {
    Address { hi: 0, lo: n }
}

fn word(n: u64) -> U256 {
    U256::from_u64(n)
}

fn limits() -> AdmissionLimits {
    AdmissionLimits {
        max_tx_size: 1000,
        max_blob_tx_size: 5000,
        max_initcode_size: 300,
        amsterdam_max_initcode_size: 400,
        post_osaka_gas_limit_cap: 16_777_216,
        min_base_fee_per_blob_gas: 1,
        frame_tx_max_verify_gas: 100_000,
        max_pending_noncanonical_paymaster: 1,
    }
}

fn rules() -> AdmissionRules {
    AdmissionRules {
        kind: BlockchainType::L1,
        config: ChainConfig {
            chain_id: 1,
            eip155_block: Some(0),
            shanghai_time: Some(0),
            cancun_time: Some(0),
            prague_time: Some(0),
            osaka_time: Some(0),
            amsterdam_time: None,
            hegota_time: Some(0),
        },
        limits: limits(),
        gap_threshold: 90,
    }
}

fn transaction(tx_type: TxType) -> Transaction {
    Transaction {
        tx_type,
        hash: hash(1),
        nonce: 3,
        gas_limit: 21000,
        to: Some(address(1)),
        value: word(0),
        data_len: 0,
        gas_fee_cap: word(2),
        gas_tip_cap: word(1),
        max_priority_fee: Some(1),
        max_fee_per_gas: Some(2),
        max_fee_per_blob_gas: None,
        blob_hash_count: 0,
        authorization_count: 1,
        chain_id: Some(1),
        protected: true,
        encoded_len: 100,
        expiry_deadline: None,
    }
}

fn facts() -> AdmissionFacts {
    AdmissionFacts {
        before: StaticFacts {
            head: Ok(Some(Head { timestamp: 100, gas_limit: 30_000_000 })),
            frame: FrameChecks {
                static_constraints: Ok(()),
                signature_verification_cost: 10,
                signatures_valid: true,
                signatures_low_s: true,
                prefix: Ok(()),
                prefix_structure: Ok(()),
            },
            intrinsic_gas: Ok(21000),
            sender: Ok(Some(AccountInfo {
                code_hash: empty_keccak_hash(),
                balance: word(100_000),
                nonce: 3,
            })),
            sender_code: SenderCode { length: Ok(None), is_delegation: Ok(None) },
            pool: PoolFacts { replaces: Ok(None), pending_cost: Ok(word(0)), occupancy_pct: Ok(0) },
        },
        simulation: Simulation::Done {
            passed: true,
            violation: None,
            max_cost: word(500),
            paymaster: None,
        },
        paymaster: PaymasterFacts {
            canonical_is_known: false,
            code_is_canonical: Ok(false),
            balance: Ok(Some(word(1000))),
            reserved: Ok(word(400)),
            noncanonical_pending: Ok(0),
        },
    }
}

fn refused(tx: Transaction, rules: &AdmissionRules, facts: AdmissionFacts) -> MempoolError {
    match validate_transaction(&tx, rules, facts) {
        Err(e) => e,
        Ok(_) => panic!("expected a refusal"),
    }
}

#[test]
fn sound_transaction_is_admitted() {
    let admitted = validate_transaction(&transaction(TxType::EIP1559), &rules(), facts()).unwrap();
    assert_eq!(
        admitted,
        Admitted { replaces: None, reservation: None, account_nonce: Some(3) }
    );
}

#[test]
fn rollup_transactions_are_only_for_rollups() {
    assert!(matches!(
        refused(transaction(TxType::Privileged), &rules(), facts()),
        MempoolError::L2OnlyTransactionType
    ));
    let mut l2 = rules();
    l2.kind = BlockchainType::L2;
    let mut blind = facts();
    blind.before.head = Ok(None);
    assert_eq!(
        validate_transaction(&transaction(TxType::Privileged), &l2, blind).unwrap(),
        Admitted { replaces: None, reservation: None, account_nonce: None }
    );
}

#[test]
fn latest_block_must_be_known() {
    let mut f = facts();
    f.before.head = Ok(None);
    assert!(matches!(
        refused(transaction(TxType::EIP1559), &rules(), f),
        MempoolError::NoBlockHeaderError
    ));
    let mut f = facts();
    f.before.head = Err(MempoolError::StoreError("io".to_string()));
    assert!(matches!(
        refused(transaction(TxType::EIP1559), &rules(), f),
        MempoolError::StoreError(_)
    ));
}

#[test]
fn frame_transactions_have_rules_of_their_own() {
    let frame = transaction(TxType::Frame);
    let mut early = rules();
    early.config.hegota_time = None;
    assert!(matches!(refused(frame, &early, facts()), MempoolError::FrameTxPreFork));
    let mut expired = frame;
    expired.expiry_deadline = Some(99);
    assert!(matches!(refused(expired, &rules(), facts()), MempoolError::FrameTxExpired));
    expired.expiry_deadline = Some(100);
    assert!(validate_transaction(&expired, &rules(), facts()).is_ok());
    let mut f = facts();
    f.before.frame.static_constraints = Err("shape".to_string());
    assert!(matches!(refused(frame, &rules(), f), MempoolError::InvalidFrameTransaction(_)));
    let mut blobs = frame;
    blobs.blob_hash_count = 1;
    assert!(matches!(refused(blobs, &rules(), facts()), MempoolError::FrameTxBlobsUnsupported));
    let mut f = facts();
    f.before.frame.signature_verification_cost = 100_001;
    assert!(matches!(refused(frame, &rules(), f), MempoolError::FrameTxVerifyGasExceeded));
    let mut f = facts();
    f.before.frame.signatures_valid = false;
    assert!(matches!(refused(frame, &rules(), f), MempoolError::InvalidFrameSignature));
    let mut f = facts();
    f.before.frame.signatures_low_s = false;
    assert!(matches!(refused(frame, &rules(), f), MempoolError::FrameTxMalleableSignature));
    let mut f = facts();
    f.before.frame.prefix = Err("prefix".to_string());
    assert!(matches!(refused(frame, &rules(), f), MempoolError::FrameTxPrefix(_)));
    let mut f = facts();
    f.before.frame.prefix_structure = Err("structure".to_string());
    assert!(matches!(refused(frame, &rules(), f), MempoolError::FrameTxPrefix(_)));
}

#[test]
fn sizes_and_gas_are_limited() {
    let mut tx = transaction(TxType::EIP1559);
    tx.encoded_len = 1001;
    assert!(matches!(
        refused(tx, &rules(), facts()),
        MempoolError::TxSizeExceeded { actual: 1001, limit: 1000 }
    ));
    tx.tx_type = TxType::EIP4844;
    assert!(validate_transaction(&tx, &rules(), facts()).is_ok());
    let mut create = transaction(TxType::EIP1559);
    create.to = None;
    create.data_len = 301;
    assert!(matches!(refused(create, &rules(), facts()), MempoolError::TxMaxInitCodeSizeError));
    let mut later = rules();
    later.config.amsterdam_time = Some(0);
    assert!(validate_transaction(&create, &later, facts()).is_ok());
    let mut gas = transaction(TxType::EIP1559);
    gas.gas_limit = 16_777_217;
    assert!(matches!(
        refused(gas, &rules(), facts()),
        MempoolError::TxMaxGasLimitExceededError(_, 16_777_217)
    ));
    gas.gas_limit = 30_000_001;
    assert!(matches!(refused(gas, &later, facts()), MempoolError::TxGasLimitExceededError));
    let mut small = transaction(TxType::EIP1559);
    small.gas_limit = 20_999;
    assert!(matches!(
        refused(small, &rules(), facts()),
        MempoolError::TxIntrinsicGasCostAboveLimitError
    ));
    let mut f = facts();
    f.before.intrinsic_gas = Err(MempoolError::Rule("gas".to_string()));
    assert!(matches!(
        refused(transaction(TxType::EIP1559), &rules(), f),
        MempoolError::Rule(_)
    ));
}

#[test]
fn fees_must_make_sense() {
    let mut tx = transaction(TxType::EIP1559);
    tx.max_priority_fee = Some(3);
    assert!(matches!(refused(tx, &rules(), facts()), MempoolError::TxTipAboveFeeCapError));
    let mut blob = transaction(TxType::EIP4844);
    blob.max_fee_per_blob_gas = Some(word(0));
    assert!(matches!(refused(blob, &rules(), facts()), MempoolError::TxBlobBaseFeeTooLowError));
    let mut huge = transaction(TxType::EIP1559);
    huge.value = U256 { hi: u128::MAX, lo: u128::MAX };
    assert!(matches!(refused(huge, &rules(), facts()), MempoolError::InvalidTxGasvalues));
    let set_code = transaction(TxType::EIP7702);
    let mut early = rules();
    early.config.prague_time = None;
    assert!(matches!(refused(set_code, &early, facts()), MempoolError::Eip7702TxPreFork));
    let mut empty = set_code;
    empty.authorization_count = 0;
    assert!(matches!(refused(empty, &rules(), facts()), MempoolError::EmptyAuthorizationList));
}

fn with_sender(info: Option<AccountInfo>) -> AdmissionFacts {
    let mut f = facts();
    f.before.sender = Ok(info);
    f
}

fn sender(nonce: u64, balance: u64, code: u128) -> Option<AccountInfo> {
    Some(AccountInfo {
        code_hash: if code == 0 { empty_keccak_hash() } else { hash(code) },
        balance: word(balance),
        nonce,
    })
}

#[test]
fn sender_must_be_able_to_send() {
    let tx = transaction(TxType::EIP1559);
    assert!(matches!(
        refused(tx, &rules(), with_sender(sender(4, 100_000, 0))),
        MempoolError::NonceTooLow
    ));
    let mut last = tx;
    last.nonce = u64::MAX;
    assert!(matches!(
        refused(last, &rules(), with_sender(sender(3, 100_000, 0))),
        MempoolError::NonceTooLow
    ));
    assert!(matches!(
        refused(tx, &rules(), with_sender(sender(3, 41_999, 0))),
        MempoolError::NotEnoughBalance
    ));
    assert!(validate_transaction(&tx, &rules(), with_sender(sender(3, 42_000, 0))).is_ok());
    assert!(matches!(
        refused(tx, &rules(), with_sender(None)),
        MempoolError::NotEnoughBalance
    ));
    let frame = transaction(TxType::Frame);
    assert!(validate_transaction(&frame, &rules(), with_sender(None)).is_ok());
    assert!(validate_transaction(&frame, &rules(), with_sender(sender(3, 0, 9))).is_ok());
    let mut f = facts();
    f.before.sender = Err(MempoolError::StoreError("io".to_string()));
    assert!(matches!(refused(tx, &rules(), f), MempoolError::StoreError(_)));
}

#[test]
fn contracts_send_nothing_unless_they_delegate() {
    let tx = transaction(TxType::EIP1559);
    let coded = |length: Option<u64>, delegation: Option<bool>| {
        let mut f = with_sender(sender(3, 100_000, 9));
        f.before.sender_code = SenderCode { length: Ok(length), is_delegation: Ok(delegation) };
        f
    };
    assert!(matches!(
        refused(tx, &rules(), coded(Some(24), Some(true))),
        MempoolError::SenderIsContract
    ));
    assert!(matches!(
        refused(tx, &rules(), coded(None, Some(true))),
        MempoolError::SenderIsContract
    ));
    assert!(matches!(
        refused(tx, &rules(), coded(Some(23), Some(false))),
        MempoolError::SenderIsContract
    ));
    match refused(tx, &rules(), coded(Some(23), None)) {
        MempoolError::StoreError(why) => assert_eq!(
            why,
            format!("code missing for hash 0x{:064x} despite present metadata", 9)
        ),
        _ => panic!("expected an inconsistent store"),
    }
    assert!(validate_transaction(&tx, &rules(), coded(Some(23), Some(true))).is_ok());
    let mut f = with_sender(sender(3, 100_000, 9));
    f.before.sender_code = SenderCode { length: Err("io".to_string()), is_delegation: Ok(None) };
    assert!(matches!(refused(tx, &rules(), f), MempoolError::StoreError(_)));
}

#[test]
fn pool_counts_what_is_waiting() {
    let tx = transaction(TxType::EIP1559);
    let mut f = facts();
    f.before.pool.pending_cost = Ok(word(58_001));
    match refused(tx, &rules(), f) {
        MempoolError::InsufficientCumulativeBalance { required, available } => {
            assert_eq!(required, word(100_001));
            assert_eq!(available, word(100_000));
        }
        _ => panic!("expected a shortage"),
    }
    let mut f = facts();
    f.before.pool.pending_cost = Ok(U256 { hi: u128::MAX, lo: u128::MAX });
    assert!(matches!(refused(tx, &rules(), f), MempoolError::InvalidTxGasvalues));
    let mut f = facts();
    f.before.pool.replaces = Err(MempoolError::Rule("underpriced".to_string()));
    assert!(matches!(refused(tx, &rules(), f), MempoolError::Rule(_)));
    let mut other = tx;
    other.chain_id = Some(2);
    assert!(matches!(refused(other, &rules(), facts()), MempoolError::InvalidChainId(1)));
}

#[test]
fn full_pool_turns_nonce_gaps_away() {
    let mut tx = transaction(TxType::EIP1559);
    tx.nonce = 8;
    let full = |replaces: Option<H256>| {
        let mut f = facts();
        f.before.pool.occupancy_pct = Ok(90);
        f.before.pool.replaces = Ok(replaces);
        f
    };
    assert!(matches!(
        refused(tx, &rules(), full(None)),
        MempoolError::GapAdmissionDeniedUnderPressure { occupancy_pct: 90, nonce_gap: 5 }
    ));
    assert_eq!(
        validate_transaction(&tx, &rules(), full(Some(hash(7)))).unwrap().replaces,
        Some(hash(7))
    );
    let mut off = rules();
    off.gap_threshold = 100;
    assert!(validate_transaction(&tx, &off, full(None)).is_ok());
    let mut f = facts();
    f.before.pool.occupancy_pct = Ok(89);
    assert!(validate_transaction(&tx, &rules(), f).is_ok());
    assert!(validate_transaction(&transaction(TxType::EIP1559), &rules(), full(None)).is_ok());
}

fn sponsored(cost: u64, ran_canonical: bool) -> AdmissionFacts {
    let mut f = facts();
    f.simulation = Simulation::Done {
        passed: true,
        violation: None,
        max_cost: word(cost),
        paymaster: Some((address(5), ran_canonical)),
    };
    f
}

#[test]
fn paymaster_must_cover_what_it_stands_behind() {
    let frame = transaction(TxType::Frame);
    let admitted = validate_transaction(&frame, &rules(), sponsored(600, false)).unwrap();
    let reservation = admitted.reservation.unwrap();
    assert_eq!(reservation.paymaster, address(5));
    assert_eq!(reservation.reserved_cost, word(600));
    assert_eq!(reservation.paymaster_balance, word(1000));
    assert!(!reservation.is_canonical);
    assert!(matches!(
        refused(frame, &rules(), sponsored(601, false)),
        MempoolError::FrameTxPaymasterUnderfunded
    ));
    let mut f = sponsored(600, false);
    f.paymaster.noncanonical_pending = Ok(1);
    assert!(matches!(
        refused(frame, &rules(), f),
        MempoolError::FrameTxNonCanonicalPaymasterLimit
    ));
    let mut f = sponsored(600, true);
    f.paymaster.noncanonical_pending = Ok(1);
    assert!(validate_transaction(&frame, &rules(), f).is_ok());
    let mut f = sponsored(600, false);
    f.paymaster.canonical_is_known = true;
    f.paymaster.code_is_canonical = Ok(true);
    f.paymaster.noncanonical_pending = Ok(1);
    assert!(validate_transaction(&frame, &rules(), f).unwrap().reservation.unwrap().is_canonical);
    let mut f = sponsored(5000, false);
    f.before.pool.replaces = Ok(Some(hash(7)));
    assert!(validate_transaction(&frame, &rules(), f).is_ok());
    let mut f = sponsored(1, false);
    f.paymaster.balance = Ok(None);
    assert!(matches!(
        refused(frame, &rules(), f),
        MempoolError::FrameTxPaymasterUnderfunded
    ));
}

#[test]
fn simulation_must_pass() {
    let frame = transaction(TxType::Frame);
    let mut f = facts();
    f.simulation = Simulation::Failed("no state".to_string());
    assert!(matches!(
        refused(frame, &rules(), f),
        MempoolError::FrameTxValidationFailed(why) if why == "no state"
    ));
    let mut f = facts();
    f.simulation = Simulation::Done {
        passed: false,
        violation: None,
        max_cost: word(1),
        paymaster: None,
    };
    assert!(matches!(
        refused(frame, &rules(), f),
        MempoolError::FrameTxValidationFailed(why) if why == "validation prefix did not pass"
    ));
    assert!(validate_transaction(&frame, &rules(), facts()).unwrap().reservation.is_none());
}

#[test]
fn plain_submission_runs_through_its_steps() {
    let l = limits();
    let s = Submission::start(transaction(TxType::EIP1559), None, &l);
    assert!(matches!(s.phase, SubmissionPhase::LookUp));
    let s = s.step(SubmissionEvent::LookedUp(Ok(false)), &l);
    assert!(matches!(s.phase, SubmissionPhase::RecoverSender));
    let s = s.step(SubmissionEvent::SenderRecovered(Ok(())), &l);
    let admitted =
        Admitted { replaces: Some(hash(7)), reservation: None, account_nonce: Some(3) };
    let s = s.step(SubmissionEvent::Validated(Ok(admitted)), &l);
    assert!(matches!(s.phase, SubmissionPhase::Remove(h) if h == hash(7)));
    assert_eq!(queued_cap(&admitted, 64), None);
    let s = s.step(SubmissionEvent::Removed(Ok(())), &l);
    assert!(matches!(s.phase, SubmissionPhase::Insert));
    let s = s.step(SubmissionEvent::Inserted(Ok(())), &l);
    assert!(matches!(s.phase, SubmissionPhase::Done(Ok(h)) if h == hash(1)));
}

#[test]
fn submission_is_refused_early() {
    let l = limits();
    let s = Submission::start(transaction(TxType::EIP4844), None, &l);
    assert!(matches!(
        s.phase,
        SubmissionPhase::Done(Err(MempoolError::BlobTxNoBlobsBundle))
    ));
    let mut large = transaction(TxType::EIP1559);
    large.encoded_len = 1001;
    let s = Submission::start(large, None, &l);
    assert!(matches!(
        s.phase,
        SubmissionPhase::Done(Err(MempoolError::TxSizeExceeded { .. }))
    ));
    let s = Submission::start(transaction(TxType::EIP1559), None, &l);
    let s = s.step(SubmissionEvent::LookedUp(Ok(true)), &l);
    assert!(matches!(s.phase, SubmissionPhase::Done(Ok(h)) if h == hash(1)));
    let s = Submission::start(transaction(TxType::EIP1559), None, &l);
    let s = s.step(SubmissionEvent::LookedUp(Err("io".to_string())), &l);
    assert!(matches!(s.phase, SubmissionPhase::Done(Err(MempoolError::StoreError(_)))));
    let blobs = Submission::start(transaction(TxType::EIP4844), Some(4901), &l);
    let blobs = blobs.step(SubmissionEvent::LookedUp(Ok(false)), &l);
    assert!(matches!(
        blobs.phase,
        SubmissionPhase::Done(Err(MempoolError::TxSizeExceeded { actual: 5001, limit: 5000 }))
    ));
}

#[test]
fn orphaned_blobs_are_removed() {
    let l = limits();
    let s = Submission::start(transaction(TxType::EIP4844), Some(4000), &l);
    let s = s.step(SubmissionEvent::LookedUp(Ok(false)), &l);
    let s = s.step(SubmissionEvent::BundleValidated(Ok(())), &l);
    let s = s.step(SubmissionEvent::SenderRecovered(Ok(())), &l);
    let admitted = Admitted { replaces: None, reservation: None, account_nonce: Some(3) };
    assert_eq!(
        queued_cap(&admitted, 64),
        Some(QueuedCap { account_nonce: 3, max: 64 })
    );
    let s = s.step(SubmissionEvent::Validated(Ok(admitted)), &l);
    assert!(matches!(s.phase, SubmissionPhase::AddBundle));
    let s = s.step(SubmissionEvent::BundleAdded(Ok(())), &l);
    let s = s.step(SubmissionEvent::Inserted(Err(MempoolError::NonceTooLow)), &l);
    assert!(matches!(s.phase, SubmissionPhase::RemoveBundle(MempoolError::NonceTooLow)));
    let s = s.step(SubmissionEvent::BundleRemoved, &l);
    assert!(matches!(s.phase, SubmissionPhase::Done(Err(MempoolError::NonceTooLow))));
}

#[test]
fn frame_transaction_keeps_what_it_replaces_until_it_is_in() {
    let l = limits();
    let s = Submission::start(transaction(TxType::Frame), None, &l);
    let s = s.step(SubmissionEvent::LookedUp(Ok(false)), &l);
    let s = s.step(SubmissionEvent::SenderRecovered(Ok(())), &l);
    let admitted =
        Admitted { replaces: Some(hash(7)), reservation: None, account_nonce: Some(3) };
    let s = s.step(SubmissionEvent::Validated(Ok(admitted)), &l);
    assert!(matches!(s.phase, SubmissionPhase::Insert));
    let s = s.step(SubmissionEvent::Inserted(Err(MempoolError::NonceTooLow)), &l);
    assert!(matches!(s.phase, SubmissionPhase::Done(Err(MempoolError::NonceTooLow))));
}

#[test]
fn stale_transactions_are_told_by_their_nonce() {
    let mut cache = NonceCache::new();
    assert_eq!(cache.known(address(1)), None);
    cache.learn(address(1), Some(5));
    cache.learn(address(2), None);
    assert_eq!(cache.known(address(1)), Some(5));
    assert_eq!(cache.known(address(2)), Some(0));
    assert!(is_stale(4, 5));
    assert!(!is_stale(5, 5));
}

fn standing(balance: Option<Option<U256>>, reserved: u64) -> RevalidationFacts {
    RevalidationFacts {
        prefix_valid: true,
        state_open: true,
        passed: true,
        balance,
        reserved: Ok(word(reserved)),
    }
}

#[test]
fn frame_transactions_are_looked_at_again() {
    let frame = transaction(TxType::Frame);
    let keep = |f: RevalidationFacts| matches!(revalidate_frame_tx(&frame, 100, f), FrameFate::Keep);
    let evict =
        |f: RevalidationFacts| matches!(revalidate_frame_tx(&frame, 100, f), FrameFate::Evict);
    assert!(keep(standing(Some(Some(word(10))), 10)));
    assert!(evict(standing(Some(Some(word(10))), 11)));
    assert!(evict(standing(Some(None), 1)));
    assert!(keep(standing(None, 11)));
    let mut f = standing(None, 0);
    f.prefix_valid = false;
    assert!(evict(f));
    let mut f = standing(None, 0);
    f.passed = false;
    assert!(evict(f));
    let mut f = standing(None, 0);
    f.state_open = false;
    f.passed = false;
    assert!(keep(f));
    let mut f = standing(Some(None), 0);
    f.reserved = Err("io".to_string());
    assert!(matches!(revalidate_frame_tx(&frame, 100, f), FrameFate::Fail(_)));
    let mut expired = frame;
    expired.expiry_deadline = Some(99);
    assert!(matches!(
        revalidate_frame_tx(&expired, 100, standing(None, 0)),
        FrameFate::Evict
    ));
}

#[test]
fn sweep_leaves_the_paymaster_covered() {
    let frame = transaction(TxType::Frame);
    let costs = [5u64, 4, 3];
    let mut reserved = 12;
    let mut kept = 0;
    for cost in costs {
        match revalidate_frame_tx(&frame, 0, standing(Some(Some(word(8))), reserved)) {
            FrameFate::Evict => reserved -= cost,
            _ => kept += 1,
        }
    }
    assert!(reserved <= 8);
    assert_eq!(kept, 2);
}

#[test]
fn peers_get_transactions_in_their_form() {
    let plain = transaction(TxType::EIP1559);
    assert_eq!(p2p_form(hash(1), Some(&plain), None), Ok(PeerForm::Plain));
    assert_eq!(p2p_form(hash(1), None, None), Err(PeerError::NotFound(hash(1))));
    assert_eq!(
        PeerError::NotFound(hash(1)).to_text(),
        "Hash 0x0000…0001 not found in the mempool"
    );
    assert_eq!(
        PeerError::MissingBundle(hash(1)).to_text(),
        "Blob transaction present without its bundle: hash 0x0000…0001"
    );
    assert_eq!(
        PeerError::PrivilegedUnsupported.to_text(),
        "Privileged Transactions are not supported in P2P"
    );
    let blob = transaction(TxType::EIP4844);
    assert_eq!(p2p_form(hash(1), Some(&blob), None), Err(PeerError::MissingBundle(hash(1))));
    assert_eq!(
        p2p_form(hash(1), Some(&blob), Some(0)),
        Ok(PeerForm::WithBlobs { wrapper_version: None })
    );
    assert_eq!(
        p2p_form(hash(1), Some(&blob), Some(1)),
        Ok(PeerForm::WithBlobs { wrapper_version: Some(1) })
    );
    let privileged = transaction(TxType::Privileged);
    assert_eq!(
        p2p_form(hash(1), Some(&privileged), None),
        Err(PeerError::PrivilegedUnsupported)
    );
}

#[test]
fn block_tells_which_transactions_leave_the_pool() {
    let mut second = transaction(TxType::Legacy);
    second.hash = hash(2);
    let block = Block {
        header: BlockHeader {
            parent_hash: hash(0),
            ommers_hash: hash(0),
            coinbase: address(0),
            state_root: hash(0),
            transactions_root: hash(0),
            receipts_root: hash(0),
            logs_bloom: Vec::new(),
            difficulty: word(0),
            number: 1,
            gas_limit: 1,
            gas_used: 1,
            timestamp: 1,
            extra_data: Vec::new(),
            prev_randao: hash(0),
            nonce: 0,
            base_fee_per_gas: None,
            withdrawals_root: None,
            blob_gas_used: None,
            excess_blob_gas: None,
            parent_beacon_block_root: None,
            requests_hash: None,
            block_access_list_hash: None,
            slot_number: None,
        },
        body: BlockBody {
            transactions: vec![transaction(TxType::EIP1559), second],
            withdrawals: None,
        },
    };
    assert_eq!(block_transaction_hashes(&block), vec![hash(1), hash(2)]);
}

#[test]
fn frame_transactions_are_run_last() {
    let tx = transaction(TxType::Frame);
    let mut f = facts();
    f.before.intrinsic_gas = Err(MempoolError::Rule("gas".to_string()));
    f.simulation = Simulation::Failed("not run".to_string());
    // Whatever a run would come to, the other rules decide before it.
    assert!(matches!(refused(tx, &rules(), f), MempoolError::Rule(_)));
    let before = check_before_simulation(&tx, &rules(), facts().before).unwrap();
    assert_eq!(before.reservation, None);
    let run = facts();
    assert_eq!(run.simulation.payer(), None);
    let after =
        check_after_simulation(&tx, &rules(), before, run.simulation, run.paymaster).unwrap();
    assert_eq!(after, before);
    assert_eq!(sponsored(500, true).simulation.payer(), Some(address(5)));
}

#[test]
fn standard_limits_are_those_of_the_network() {
    let standard = AdmissionLimits::standard();
    assert_eq!(standard.max_tx_size, 128 * 1024);
    assert_eq!(standard.max_blob_tx_size, 1024 * 1024);
    assert_eq!(standard.max_initcode_size, 49_152);
}
