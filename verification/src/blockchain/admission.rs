//! Which transactions are taken into the mempool.

use crate::account::{empty_keccak, empty_keccak_hash, AccountInfo};
use crate::blockchain::checks::BlockchainType;
use crate::config::{in_force, ChainConfig};
use crate::hex::long_form;
use crate::transaction::{max_cost, Transaction, TxType};
use crate::word::{lemma_word_bound, lemma_word_ext, two_256, word_of, Address, H256, U256};
use vstd::prelude::*;
use vstd::string::*;

verus! {

/// Why a transaction is not taken into the mempool.
#[derive(Debug)]
pub enum MempoolError {
    NoBlockHeaderError,
    StoreError(String),
    BlobsBundleError(String),
    BlobTxNoBlobsBundle,
    TxSizeExceeded { actual: usize, limit: usize },
    TxMaxInitCodeSizeError,
    TxMaxGasLimitExceededError(H256, u64),
    TxGasLimitExceededError,
    TxTipAboveFeeCapError,
    TxIntrinsicGasCostAboveLimitError,
    TxBlobBaseFeeTooLowError,
    InvalidTxGasvalues,
    InvalidTxSender(String),
    NonceTooLow,
    NotEnoughBalance,
    SenderIsContract,
    InsufficientCumulativeBalance { required: U256, available: U256 },
    InvalidChainId(u64),
    GapAdmissionDeniedUnderPressure { occupancy_pct: u8, nonce_gap: u64 },
    L2OnlyTransactionType,
    Eip7702TxPreFork,
    EmptyAuthorizationList,
    FrameTxPreFork,
    FrameTxExpired,
    InvalidFrameTransaction(String),
    FrameTxBlobsUnsupported,
    FrameTxVerifyGasExceeded,
    InvalidFrameSignature,
    FrameTxMalleableSignature,
    /// The validation prefix of a frame transaction breaks a rule, in words.
    FrameTxPrefix(String),
    FrameTxValidationFailed(String),
    FrameTxPaymasterUnderfunded,
    FrameTxNonCanonicalPaymasterLimit,
    /// Another rule of the mempool is broken, in words.
    Rule(String),
}

/// What an error says: of one that the store reports, the words count.
#[verifier::ext_equal]
pub enum FaultView {
    Store(Seq<char>),
    Other(MempoolError),
}

impl View for MempoolError {
    type V = FaultView;

    open spec fn view(&self) -> FaultView {
        match self {
            MempoolError::StoreError(why) => FaultView::Store(why@),
            _ => FaultView::Other(*self),
        }
    }
}

/// A result with what its error says.
pub open spec fn told<T>(r: Result<T, MempoolError>) -> Result<T, FaultView> {
    match r {
        Ok(x) => Ok(x),
        Err(e) => Err(e@),
    }
}

/// What an error, where there is one, says.
pub open spec fn told_fault(fault: Option<MempoolError>) -> Option<FaultView> {
    match fault {
        Some(e) => Some(e@),
        None => None,
    }
}

/// The length of a code that only names another account's code.
pub const EIP7702_DELEGATED_CODE_LEN: u64 = 23;

/// What a transaction may come to at most.
#[derive(Copy, Clone, PartialEq, Eq, Structural, Debug)]
pub struct AdmissionLimits {
    /// The size of a transaction on the wire, without blobs.
    pub max_tx_size: usize,
    /// The size of a transaction on the wire, with its blobs.
    pub max_blob_tx_size: usize,
    pub max_initcode_size: usize,
    /// The same under the rules that raise it.
    pub amsterdam_max_initcode_size: usize,
    /// The gas limit of a transaction from Osaka to Amsterdam.
    pub post_osaka_gas_limit_cap: u64,
    /// The least fee for blobs.
    pub min_base_fee_per_blob_gas: u64,
    /// The gas for checking the signatures of a frame transaction.
    pub frame_tx_max_verify_gas: u64,
    /// How many pending transactions an unknown paymaster may stand behind.
    pub max_pending_noncanonical_paymaster: u64,
}

impl AdmissionLimits {
    /// The limits of a mempool that is not configured otherwise.
    pub fn standard() -> (limits: AdmissionLimits)
        ensures
            limits == (AdmissionLimits {
                max_tx_size: 131072,
                max_blob_tx_size: 1048576,
                max_initcode_size: 49152,
                amsterdam_max_initcode_size: 65536,
                post_osaka_gas_limit_cap: 16777216,
                min_base_fee_per_blob_gas: 1,
                frame_tx_max_verify_gas: 100000,
                max_pending_noncanonical_paymaster: 1,
            }),
    {
        AdmissionLimits {
            max_tx_size: 131072,
            max_blob_tx_size: 1048576,
            max_initcode_size: 49152,
            amsterdam_max_initcode_size: 65536,
            post_osaka_gas_limit_cap: 16777216,
            min_base_fee_per_blob_gas: 1,
            frame_tx_max_verify_gas: 100000,
            max_pending_noncanonical_paymaster: 1,
        }
    }
}

/// What the checks of a frame transaction found.
pub struct FrameChecks {
    /// The rules that can be told from the transaction alone.
    pub static_constraints: Result<(), String>,
    /// The gas for checking its signatures.
    pub signature_verification_cost: u64,
    pub signatures_valid: bool,
    pub signatures_low_s: bool,
    /// The shape of its validation prefix, and the rules for it, in words.
    pub prefix: Result<(), String>,
    pub prefix_structure: Result<(), String>,
}

/// What the store has of the code of a sender.
pub struct SenderCode {
    /// Its length, in the code's own record.
    pub length: Result<Option<u64>, String>,
    /// Whether it names another account's code, where the code is there.
    pub is_delegation: Result<Option<bool>, String>,
}

/// What came of running the validation prefix of a frame transaction.
pub enum Simulation {
    /// It could not be run, in words.
    Failed(String),
    Done {
        passed: bool,
        violation: Option<String>,
        /// What the transaction can cost at most.
        max_cost: U256,
        /// Who pays, where someone other than the sender does, and whether the code that
        /// was run is the well-known one.
        paymaster: Option<(Address, bool)>,
    },
}

impl Simulation {
    /// Who pays, where someone other than the sender does and the prefix passed.
    pub fn payer(&self) -> (payer: Option<Address>)
        ensures
            payer == match *self {
                Simulation::Done { passed: true, paymaster: Some((address, _)), .. } => Some(
                    address,
                ),
                _ => None,
            },
    {
        match self {
            Simulation::Done { passed: true, paymaster: Some((address, _)), .. } => Some(*address),
            _ => None,
        }
    }
}

/// What the store and the mempool know of a paymaster.
pub struct PaymasterFacts {
    /// The hash of the well-known paymaster is fixed.
    pub canonical_is_known: bool,
    /// The paymaster's code at the head is the well-known one.
    pub code_is_canonical: Result<bool, MempoolError>,
    pub balance: Result<Option<U256>, MempoolError>,
    /// What is set aside for transactions that wait.
    pub reserved: Result<U256, MempoolError>,
    /// How many transactions wait that an unknown paymaster stands behind.
    pub noncanonical_pending: Result<u64, MempoolError>,
}

/// What is set aside of a paymaster's balance for a transaction.
#[derive(Copy, Clone, PartialEq, Eq, Structural, Debug)]
pub struct FramePaymasterReservation {
    pub paymaster: Address,
    pub reserved_cost: U256,
    pub is_canonical: bool,
    pub paymaster_balance: U256,
}

/// What becomes of a transaction that is taken in.
#[derive(Copy, Clone, PartialEq, Eq, Structural, Debug)]
pub struct Admitted {
    /// The transaction that it replaces.
    pub replaces: Option<H256>,
    pub reservation: Option<FramePaymasterReservation>,
    /// The nonce that the sender has on the chain.
    pub account_nonce: Option<u64>,
}

/// What the sender of a transaction has, and what the transaction costs it at most.
#[derive(Copy, Clone, PartialEq, Eq, Structural, Debug)]
pub struct SenderFunds {
    pub balance: U256,
    pub cost: U256,
}

/// Whether a transaction is taken in without more checks, or is not for this chain.
pub open spec fn kind_verdict(kind: BlockchainType, tx: Transaction) -> Result<bool, MempoolError> {
    if kind is L1 && tx.tx_type.l2_only() {
        Err(MempoolError::L2OnlyTransactionType)
    } else {
        Ok(tx.tx_type is Privileged)
    }
}

/// Whether a transaction is taken in without more checks: those that the operator of a
/// rollup makes are.
pub fn check_kind(kind: BlockchainType, tx: &Transaction) -> (r: Result<bool, MempoolError>)
    ensures
        r == kind_verdict(kind, *tx),
{
    if kind == BlockchainType::L1 && tx.tx_type.is_l2_only() {
        return Err(MempoolError::L2OnlyTransactionType);
    }
    Ok(tx.tx_type == TxType::Privileged)
}

/// The rule for frame transactions that one breaks first, before it is run.
pub open spec fn frame_fault(
    tx: Transaction,
    config: ChainConfig,
    timestamp: u64,
    checks: FrameChecks,
    limits: AdmissionLimits,
) -> Option<MempoolError> {
    if !(tx.tx_type is Frame) {
        None
    } else if !in_force(config.hegota_time, timestamp) {
        Some(MempoolError::FrameTxPreFork)
    } else if tx.expiry_deadline is Some && tx.expiry_deadline->0 < timestamp {
        Some(MempoolError::FrameTxExpired)
    } else if checks.static_constraints is Err {
        Some(MempoolError::InvalidFrameTransaction(checks.static_constraints->Err_0))
    } else if tx.blob_hash_count > 0 {
        Some(MempoolError::FrameTxBlobsUnsupported)
    } else if checks.signature_verification_cost > limits.frame_tx_max_verify_gas {
        Some(MempoolError::FrameTxVerifyGasExceeded)
    } else if !checks.signatures_valid {
        Some(MempoolError::InvalidFrameSignature)
    } else if !checks.signatures_low_s {
        Some(MempoolError::FrameTxMalleableSignature)
    } else if checks.prefix is Err {
        Some(MempoolError::FrameTxPrefix(checks.prefix->Err_0))
    } else if checks.prefix_structure is Err {
        Some(MempoolError::FrameTxPrefix(checks.prefix_structure->Err_0))
    } else {
        None
    }
}

/// An error, or none, as a result.
pub open spec fn fault_result(fault: Option<MempoolError>) -> Result<(), MempoolError> {
    match fault {
        Some(e) => Err(e),
        None => Ok(()),
    }
}

/// Holds a frame transaction to its rules, before it is run. Other transactions pass.
pub fn check_frame(
    tx: &Transaction,
    config: &ChainConfig,
    timestamp: u64,
    checks: FrameChecks,
    limits: &AdmissionLimits,
) -> (r: Result<(), MempoolError>)
    ensures
        r == fault_result(frame_fault(*tx, *config, timestamp, checks, *limits)),
{
    if tx.tx_type != TxType::Frame {
        return Ok(());
    }
    if !config.is_hegota_activated(timestamp) {
        return Err(MempoolError::FrameTxPreFork);
    }
    if let Some(deadline) = tx.expiry_deadline {
        if deadline < timestamp {
            return Err(MempoolError::FrameTxExpired);
        }
    }
    if let Err(why) = checks.static_constraints {
        return Err(MempoolError::InvalidFrameTransaction(why));
    }
    if tx.blob_hash_count > 0 {
        return Err(MempoolError::FrameTxBlobsUnsupported);
    }
    if checks.signature_verification_cost > limits.frame_tx_max_verify_gas {
        return Err(MempoolError::FrameTxVerifyGasExceeded);
    }
    if !checks.signatures_valid {
        return Err(MempoolError::InvalidFrameSignature);
    }
    if !checks.signatures_low_s {
        return Err(MempoolError::FrameTxMalleableSignature);
    }
    if let Err(why) = checks.prefix {
        return Err(MempoolError::FrameTxPrefix(why));
    }
    if let Err(why) = checks.prefix_structure {
        return Err(MempoolError::FrameTxPrefix(why));
    }
    Ok(())
}

/// An optional number, and zero where there is none.
pub open spec fn or_zero(n: Option<u64>) -> u64 {
    match n {
        Some(x) => x,
        None => 0,
    }
}

fn number_or_zero(n: Option<u64>) -> (x: u64)
    ensures
        x == or_zero(n),
{
    match n {
        Some(x) => x,
        None => 0,
    }
}

/// The size that a contract's init code may have.
pub open spec fn initcode_limit(config: ChainConfig, timestamp: u64, limits: AdmissionLimits) -> usize {
    if in_force(config.amsterdam_time, timestamp) {
        limits.amsterdam_max_initcode_size
    } else {
        limits.max_initcode_size
    }
}

/// What a transaction can cost at most, as far as a word holds it.
pub open spec fn cost_word(tx: Transaction) -> Option<U256> {
    if max_cost(tx) < two_256() {
        Some(word_of(max_cost(tx) as int))
    } else {
        None
    }
}

/// The rule for sizes, gas and fees that a transaction breaks first.
pub open spec fn shape_fault(
    tx: Transaction,
    config: ChainConfig,
    timestamp: u64,
    head_gas_limit: u64,
    limits: AdmissionLimits,
    intrinsic_gas: Result<u64, MempoolError>,
) -> Option<MempoolError> {
    if !(tx.tx_type is EIP4844) && tx.encoded_len > limits.max_tx_size {
        Some(
            MempoolError::TxSizeExceeded { actual: tx.encoded_len, limit: limits.max_tx_size },
        )
    } else if in_force(config.shanghai_time, timestamp) && tx.creates() && tx.data_len
        > initcode_limit(config, timestamp, limits) {
        Some(MempoolError::TxMaxInitCodeSizeError)
    } else if in_force(config.osaka_time, timestamp) && !in_force(
        config.amsterdam_time,
        timestamp,
    ) && tx.gas_limit > limits.post_osaka_gas_limit_cap {
        Some(MempoolError::TxMaxGasLimitExceededError(tx.hash, tx.gas_limit))
    } else if head_gas_limit < tx.gas_limit {
        Some(MempoolError::TxGasLimitExceededError)
    } else if or_zero(tx.max_priority_fee) > or_zero(tx.max_fee_per_gas) {
        Some(MempoolError::TxTipAboveFeeCapError)
    } else if tx.tx_type is EIP7702 && !in_force(config.prague_time, timestamp) {
        Some(MempoolError::Eip7702TxPreFork)
    } else if tx.tx_type is EIP7702 && tx.authorization_count == 0 {
        Some(MempoolError::EmptyAuthorizationList)
    } else if intrinsic_gas is Err {
        Some(intrinsic_gas->Err_0)
    } else if tx.gas_limit < intrinsic_gas->Ok_0 {
        Some(MempoolError::TxIntrinsicGasCostAboveLimitError)
    } else if tx.max_fee_per_blob_gas is Some && tx.max_fee_per_blob_gas->0@
        < limits.min_base_fee_per_blob_gas {
        Some(MempoolError::TxBlobBaseFeeTooLowError)
    } else if cost_word(tx) is None {
        Some(MempoolError::InvalidTxGasvalues)
    } else {
        None
    }
}

/// Holds a transaction to the rules for sizes, gas and fees. What it can cost at most,
/// where it keeps them all.
pub fn check_shape(
    tx: &Transaction,
    config: &ChainConfig,
    timestamp: u64,
    head_gas_limit: u64,
    limits: &AdmissionLimits,
    intrinsic_gas: Result<u64, MempoolError>,
) -> (r: Result<U256, MempoolError>)
    ensures
        r == match shape_fault(*tx, *config, timestamp, head_gas_limit, *limits, intrinsic_gas) {
            Some(e) => Err::<U256, MempoolError>(e),
            None => Ok(cost_word(*tx)->0),
        },
{
    if tx.tx_type != TxType::EIP4844 && tx.encoded_len > limits.max_tx_size {
        return Err(
            MempoolError::TxSizeExceeded { actual: tx.encoded_len, limit: limits.max_tx_size },
        );
    }
    let max_initcode_size: usize = if config.is_amsterdam_activated(timestamp) {
        limits.amsterdam_max_initcode_size
    } else {
        limits.max_initcode_size
    };
    if config.is_shanghai_activated(timestamp) && tx.to.is_none() && tx.data_len
        > max_initcode_size {
        return Err(MempoolError::TxMaxInitCodeSizeError);
    }
    if config.is_osaka_activated(timestamp) && !config.is_amsterdam_activated(timestamp)
        && tx.gas_limit > limits.post_osaka_gas_limit_cap {
        return Err(MempoolError::TxMaxGasLimitExceededError(tx.hash, tx.gas_limit));
    }
    if head_gas_limit < tx.gas_limit {
        return Err(MempoolError::TxGasLimitExceededError);
    }
    if number_or_zero(tx.max_priority_fee) > number_or_zero(tx.max_fee_per_gas) {
        return Err(MempoolError::TxTipAboveFeeCapError);
    }
    if tx.tx_type == TxType::EIP7702 {
        if !config.is_prague_activated(timestamp) {
            return Err(MempoolError::Eip7702TxPreFork);
        }
        if tx.authorization_count == 0 {
            return Err(MempoolError::EmptyAuthorizationList);
        }
    }
    match intrinsic_gas {
        Err(e) => return Err(e),
        Ok(gas) => {
            if tx.gas_limit < gas {
                return Err(MempoolError::TxIntrinsicGasCostAboveLimitError);
            }
        },
    }
    if let Some(fee) = tx.max_fee_per_blob_gas {
        if fee.less_than(&U256::from_u64(limits.min_base_fee_per_blob_gas)) {
            return Err(MempoolError::TxBlobBaseFeeTooLowError);
        }
    }
    match tx.cost_without_base_fee() {
        None => Err(MempoolError::InvalidTxGasvalues),
        Some(cost) => {
            proof {
                lemma_word_bound(cost);
                lemma_word_ext(cost, word_of(max_cost(*tx) as int));
            }
            Ok(cost)
        },
    }
}

/// What is said where the store knows the length of a code but not the code.
pub open spec fn missing_code_text(code_hash: H256) -> Seq<char> {
    "code missing for hash "@ + long_form(code_hash.bytes()) + " despite present metadata"@
}

/// Whether the code of a sender lets it send transactions.
pub open spec fn code_fault(code_hash: H256, code: SenderCode) -> Option<FaultView> {
    if code_hash == empty_keccak() {
        None
    } else {
        match code.length {
            Err(why) => Some(FaultView::Store(why@)),
            Ok(length) => if length == Some(EIP7702_DELEGATED_CODE_LEN) {
                match code.is_delegation {
                    Err(why) => Some(FaultView::Store(why@)),
                    Ok(None) => Some(FaultView::Store(missing_code_text(code_hash))),
                    Ok(Some(true)) => None,
                    Ok(Some(false)) => Some(FaultView::Other(MempoolError::SenderIsContract)),
                }
            } else {
                Some(FaultView::Other(MempoolError::SenderIsContract))
            },
        }
    }
}

/// Whether a sender with this code may send transactions: one without code, or one whose
/// code only names another account's.
pub fn check_sender_code(code_hash: H256, code: SenderCode) -> (r: Result<(), MempoolError>)
    ensures
        told(r) == match code_fault(code_hash, code) {
            Some(e) => Err::<(), FaultView>(e),
            None => Ok(()),
        },
{
    if code_hash == empty_keccak_hash() {
        return Ok(());
    }
    match code.length {
        Err(why) => Err(MempoolError::StoreError(why)),
        Ok(length) => {
            let shaped = match length {
                Some(n) => n == EIP7702_DELEGATED_CODE_LEN,
                None => false,
            };
            if !shaped {
                return Err(MempoolError::SenderIsContract);
            }
            match code.is_delegation {
                Err(why) => Err(MempoolError::StoreError(why)),
                Ok(None) => {
                    let mut why = "code missing for hash ".to_owned();
                    why.append(code_hash.long_text().as_str());
                    why.append(" despite present metadata");
                    Err(MempoolError::StoreError(why))
                },
                Ok(Some(true)) => Ok(()),
                Ok(Some(false)) => Err(MempoolError::SenderIsContract),
            }
        },
    }
}

/// The rule for senders that one breaks first.
pub open spec fn sender_fault(
    tx: Transaction,
    cost: U256,
    info: Option<AccountInfo>,
    code: SenderCode,
) -> Option<FaultView> {
    match info {
        Some(info) => if tx.nonce < info.nonce || tx.nonce == u64::MAX {
            Some(FaultView::Other(MempoolError::NonceTooLow))
        } else if tx.tx_type is Frame {
            None
        } else if code_fault(info.code_hash, code) is Some {
            code_fault(info.code_hash, code)
        } else if cost@ > info.balance@ {
            Some(FaultView::Other(MempoolError::NotEnoughBalance))
        } else {
            None
        },
        None => if !(tx.tx_type is Frame) {
            Some(FaultView::Other(MempoolError::NotEnoughBalance))
        } else if tx.nonce == u64::MAX {
            Some(FaultView::Other(MempoolError::NonceTooLow))
        } else {
            None
        },
    }
}

/// Holds the sender of a transaction to its rules. The sender's balance, where it keeps
/// them. The payer of a frame transaction is not known yet, so its sender needs no
/// balance and may have code.
pub fn check_sender(
    tx: &Transaction,
    cost: U256,
    info: Option<AccountInfo>,
    code: SenderCode,
) -> (r: Result<U256, MempoolError>)
    ensures
        told(r) == match sender_fault(*tx, cost, info, code) {
            Some(e) => Err::<U256, FaultView>(e),
            None => Ok(
                match info {
                    Some(info) => info.balance,
                    None => U256 { hi: 0, lo: 0 },
                },
            ),
        },
{
    let is_frame = tx.tx_type == TxType::Frame;
    match info {
        Some(info) => {
            if tx.nonce < info.nonce || tx.nonce == u64::MAX {
                return Err(MempoolError::NonceTooLow);
            }
            if !is_frame {
                match check_sender_code(info.code_hash, code) {
                    Err(e) => return Err(e),
                    Ok(()) => {},
                }
                if info.balance.less_than(&cost) {
                    return Err(MempoolError::NotEnoughBalance);
                }
            }
            Ok(info.balance)
        },
        None => {
            if !is_frame {
                return Err(MempoolError::NotEnoughBalance);
            }
            if tx.nonce == u64::MAX {
                return Err(MempoolError::NonceTooLow);
            }
            Ok(U256::zero())
        },
    }
}

/// What the mempool and the sender's waiting transactions say of a new one.
pub struct PoolFacts {
    /// The waiting transaction with the same sender and nonce that the new one replaces.
    pub replaces: Result<Option<H256>, MempoolError>,
    /// What the sender's other waiting transactions can cost at most.
    pub pending_cost: Result<U256, MempoolError>,
    /// How full the mempool is, in percent.
    pub occupancy_pct: Result<u8, MempoolError>,
}

/// The amount by which `a` is above `b`, and zero where it is not.
pub open spec fn above(a: u64, b: u64) -> u64 {
    if a >= b {
        (a - b) as u64
    } else {
        0
    }
}

/// The rule of the mempool that a transaction breaks first.
pub open spec fn pool_fault(
    tx: Transaction,
    funds: SenderFunds,
    account_nonce: u64,
    chain_id: u64,
    threshold: u8,
    pool: PoolFacts,
) -> Option<MempoolError> {
    if pool.replaces is Err {
        Some(pool.replaces->Err_0)
    } else if !(tx.tx_type is Frame) && pool.pending_cost is Err {
        Some(pool.pending_cost->Err_0)
    } else if !(tx.tx_type is Frame) && pool.pending_cost->Ok_0@ + funds.cost@ >= two_256() {
        Some(MempoolError::InvalidTxGasvalues)
    } else if !(tx.tx_type is Frame) && pool.pending_cost->Ok_0@ + funds.cost@
        > funds.balance@ {
        Some(
            MempoolError::InsufficientCumulativeBalance {
                required: word_of((pool.pending_cost->Ok_0@ + funds.cost@) as int),
                available: funds.balance,
            },
        )
    } else if tx.chain_id is Some && tx.chain_id->0 != chain_id {
        Some(MempoolError::InvalidChainId(chain_id))
    } else if pool.replaces->Ok_0 is None && tx.nonce != account_nonce && threshold < 100 {
        match pool.occupancy_pct {
            Err(e) => Some(e),
            Ok(occupancy_pct) => if occupancy_pct >= threshold {
                Some(
                    MempoolError::GapAdmissionDeniedUnderPressure {
                        occupancy_pct,
                        nonce_gap: above(tx.nonce, account_nonce),
                    },
                )
            } else {
                None
            },
        }
    } else {
        None
    }
}

/// Holds a transaction to the rules of the mempool: its sender can pay for all it has
/// waiting, it is of this chain, and in a full mempool it leaves no nonce out. The
/// transaction that it replaces, where it keeps them.
pub fn check_pool(
    tx: &Transaction,
    funds: SenderFunds,
    account_nonce: u64,
    chain_id: u64,
    threshold: u8,
    pool: PoolFacts,
) -> (r: Result<Option<H256>, MempoolError>)
    ensures
        r == match pool_fault(*tx, funds, account_nonce, chain_id, threshold, pool) {
            Some(e) => Err::<Option<H256>, MempoolError>(e),
            None => Ok(pool.replaces->Ok_0),
        },
{
    let PoolFacts { replaces, pending_cost, occupancy_pct } = pool;
    let replaces = match replaces {
        Err(e) => return Err(e),
        Ok(hash) => hash,
    };
    if tx.tx_type != TxType::Frame {
        let existing = match pending_cost {
            Err(e) => return Err(e),
            Ok(cost) => cost,
        };
        let total = match existing.checked_add(funds.cost) {
            None => return Err(MempoolError::InvalidTxGasvalues),
            Some(total) => total,
        };
        proof {
            lemma_word_bound(total);
            lemma_word_ext(total, word_of((existing@ + funds.cost@) as int));
        }
        if funds.balance.less_than(&total) {
            return Err(
                MempoolError::InsufficientCumulativeBalance {
                    required: total,
                    available: funds.balance,
                },
            );
        }
    }
    if let Some(id) = tx.chain_id {
        if id != chain_id {
            return Err(MempoolError::InvalidChainId(chain_id));
        }
    }
    if replaces.is_none() && tx.nonce != account_nonce && threshold < 100 {
        match occupancy_pct {
            Err(e) => return Err(e),
            Ok(occupancy_pct) => {
                if occupancy_pct >= threshold {
                    let nonce_gap: u64 = if tx.nonce >= account_nonce {
                        tx.nonce - account_nonce
                    } else {
                        0
                    };
                    return Err(
                        MempoolError::GapAdmissionDeniedUnderPressure { occupancy_pct, nonce_gap },
                    );
                }
            },
        }
    }
    Ok(replaces)
}

/// Whether a paymaster is the well-known one.
pub open spec fn is_canonical_paymaster(ran: bool, facts: PaymasterFacts) -> Result<
    bool,
    MempoolError,
> {
    if !facts.canonical_is_known {
        Ok(ran)
    } else {
        match facts.code_is_canonical {
            Err(e) => Err(e),
            Ok(is) => Ok(ran || is),
        }
    }
}

/// A paymaster's balance.
pub open spec fn paymaster_funds(balance: Option<U256>) -> U256 {
    match balance {
        Some(b) => b,
        None => U256 { hi: 0, lo: 0 },
    }
}

/// Whether a paymaster cannot cover a cost besides what is set aside.
pub open spec fn underfunded(balance: U256, reserved: U256, cost: U256) -> bool {
    (if balance@ < reserved@ {
        0
    } else {
        balance@ - reserved@
    }) < cost@
}

/// What is set aside for a frame transaction whose prefix passed, or why it is turned
/// away. A transaction that replaces another one is not turned away here.
pub open spec fn paymaster_verdict(
    paymaster: Address,
    ran: bool,
    cost: U256,
    replacing: bool,
    facts: PaymasterFacts,
    limits: AdmissionLimits,
) -> Result<FramePaymasterReservation, MempoolError> {
    match (is_canonical_paymaster(ran, facts), facts.balance, facts.reserved) {
        (Err(e), _, _) => Err(e),
        (Ok(_), Err(e), _) => Err(e),
        (Ok(_), Ok(_), Err(e)) => Err(e),
        (Ok(canonical), Ok(balance), Ok(reserved)) => {
            if !replacing && underfunded(paymaster_funds(balance), reserved, cost) {
                Err(MempoolError::FrameTxPaymasterUnderfunded)
            } else if !replacing && !canonical && facts.noncanonical_pending is Err {
                Err(facts.noncanonical_pending->Err_0)
            } else if !replacing && !canonical && facts.noncanonical_pending->Ok_0
                >= limits.max_pending_noncanonical_paymaster {
                Err(MempoolError::FrameTxNonCanonicalPaymasterLimit)
            } else {
                Ok(
                    FramePaymasterReservation {
                        paymaster,
                        reserved_cost: cost,
                        is_canonical: canonical,
                        paymaster_balance: paymaster_funds(balance),
                    },
                )
            }
        },
    }
}

/// What is set aside of a paymaster's balance, or why the transaction is turned away.
pub fn check_paymaster(
    paymaster: Address,
    ran: bool,
    cost: U256,
    replacing: bool,
    facts: PaymasterFacts,
    limits: &AdmissionLimits,
) -> (r: Result<FramePaymasterReservation, MempoolError>)
    ensures
        r == paymaster_verdict(paymaster, ran, cost, replacing, facts, *limits),
{
    let PaymasterFacts {
        canonical_is_known,
        code_is_canonical,
        balance,
        reserved,
        noncanonical_pending,
    } = facts;
    let is_canonical = if !canonical_is_known {
        ran
    } else {
        match code_is_canonical {
            Err(e) => return Err(e),
            Ok(is) => ran || is,
        }
    };
    let paymaster_balance = match balance {
        Err(e) => return Err(e),
        Ok(Some(b)) => b,
        Ok(None) => U256::zero(),
    };
    let reserved = match reserved {
        Err(e) => return Err(e),
        Ok(reserved) => reserved,
    };
    if !replacing {
        let available = paymaster_balance.saturating_sub(reserved);
        if available.less_than(&cost) {
            return Err(MempoolError::FrameTxPaymasterUnderfunded);
        }
        if !is_canonical {
            match noncanonical_pending {
                Err(e) => return Err(e),
                Ok(pending) => {
                    if pending >= limits.max_pending_noncanonical_paymaster {
                        return Err(MempoolError::FrameTxNonCanonicalPaymasterLimit);
                    }
                },
            }
        }
    }
    Ok(FramePaymasterReservation { paymaster, reserved_cost: cost, is_canonical, paymaster_balance })
}

/// What a frame transaction whose prefix did not pass is told.
pub open spec fn violation_text(violation: Option<String>) -> Seq<char> {
    match violation {
        Some(why) => why@,
        None => "validation prefix did not pass"@,
    }
}

/// What is set aside for a frame transaction that was run, `reserve` being the verdict
/// over its paymaster.
pub open spec fn simulation_allows(
    simulation: Simulation,
    reserve: spec_fn(Address, bool, U256) -> Result<FramePaymasterReservation, MempoolError>,
    r: Result<Option<FramePaymasterReservation>, MempoolError>,
) -> bool {
    match simulation {
        Simulation::Failed(why) => r == Err::<
            Option<FramePaymasterReservation>,
            MempoolError,
        >(MempoolError::FrameTxValidationFailed(why)),
        Simulation::Done { passed, violation, max_cost, paymaster } => if !passed {
            r matches Err(MempoolError::FrameTxValidationFailed(why)) && why@ == violation_text(
                violation,
            )
        } else {
            match paymaster {
                None => r == Ok::<Option<FramePaymasterReservation>, MempoolError>(None),
                Some((address, ran)) => match reserve(address, ran, max_cost) {
                    Ok(reservation) => r == Ok::<Option<FramePaymasterReservation>, MempoolError>(
                        Some(reservation),
                    ),
                    Err(e) => r == Err::<Option<FramePaymasterReservation>, MempoolError>(e),
                },
            }
        },
    }
}

/// What is set aside for a frame transaction that was run, or why it is turned away.
pub fn check_simulation(
    simulation: Simulation,
    replacing: bool,
    facts: PaymasterFacts,
    limits: &AdmissionLimits,
) -> (r: Result<Option<FramePaymasterReservation>, MempoolError>)
    ensures
        simulation_allows(
            simulation,
            |address: Address, ran: bool, cost: U256|
                paymaster_verdict(address, ran, cost, replacing, facts, *limits),
            r,
        ),
{
    match simulation {
        Simulation::Failed(why) => Err(MempoolError::FrameTxValidationFailed(why)),
        Simulation::Done { passed, violation, max_cost, paymaster } => {
            if !passed {
                let why = match violation {
                    Some(why) => why,
                    None => "validation prefix did not pass".to_owned(),
                };
                return Err(MempoolError::FrameTxValidationFailed(why));
            }
            match paymaster {
                None => Ok(None),
                Some((address, ran)) => match check_paymaster(
                    address,
                    ran,
                    max_cost,
                    replacing,
                    facts,
                    limits,
                ) {
                    Ok(reservation) => Ok(Some(reservation)),
                    Err(e) => Err(e),
                },
            }
        },
    }
}

/// The timestamp and the gas limit of the latest block.
#[derive(Copy, Clone, PartialEq, Eq, Structural, Debug)]
pub struct Head {
    pub timestamp: u64,
    pub gas_limit: u64,
}

/// What is known of a transaction before it is run.
pub struct StaticFacts {
    /// The latest block.
    pub head: Result<Option<Head>, MempoolError>,
    pub frame: FrameChecks,
    /// The gas that a transaction takes before it is run.
    pub intrinsic_gas: Result<u64, MempoolError>,
    /// The sender's account.
    pub sender: Result<Option<AccountInfo>, MempoolError>,
    pub sender_code: SenderCode,
    pub pool: PoolFacts,
}

/// Everything that is known of a transaction when it arrives.
pub struct AdmissionFacts {
    pub before: StaticFacts,
    pub simulation: Simulation,
    pub paymaster: PaymasterFacts,
}

/// The rules of a chain and its mempool.
#[derive(Copy, Clone, PartialEq, Eq, Structural, Debug)]
pub struct AdmissionRules {
    pub kind: BlockchainType,
    pub config: ChainConfig,
    pub limits: AdmissionLimits,
    /// How full, in percent, the mempool is when a nonce gap is turned away.
    pub gap_threshold: u8,
}

/// The nonce that the sender has on the chain.
pub open spec fn nonce_of(info: Option<AccountInfo>) -> Option<u64> {
    match info {
        Some(info) => Some(info.nonce),
        None => None,
    }
}

/// What the sender has and what the transaction costs it at most.
pub open spec fn funds_of(tx: Transaction, info: Option<AccountInfo>) -> SenderFunds {
    SenderFunds {
        balance: match info {
            Some(info) => info.balance,
            None => U256 { hi: 0, lo: 0 },
        },
        cost: cost_word(tx)->0,
    }
}

/// The first rule that a transaction breaks before it is run, given the latest block and
/// the sender's account.
pub open spec fn fault_at(
    tx: Transaction,
    rules: AdmissionRules,
    head: Head,
    facts: StaticFacts,
) -> Option<FaultView> {
    let frame = frame_fault(tx, rules.config, head.timestamp, facts.frame, rules.limits);
    let shape = shape_fault(
        tx,
        rules.config,
        head.timestamp,
        head.gas_limit,
        rules.limits,
        facts.intrinsic_gas,
    );
    if frame is Some {
        told_fault(frame)
    } else if shape is Some {
        told_fault(shape)
    } else {
        match facts.sender {
            Err(e) => Some(e@),
            Ok(info) => {
                let sender = sender_fault(tx, cost_word(tx)->0, info, facts.sender_code);
                if sender is Some {
                    sender
                } else {
                    told_fault(
                        pool_fault(
                            tx,
                            funds_of(tx, info),
                            or_zero(nonce_of(info)),
                            rules.config.chain_id,
                            rules.gap_threshold,
                            facts.pool,
                        ),
                    )
                }
            },
        }
    }
}

/// What is set aside by a verdict.
pub open spec fn reservation_part(r: Result<Admitted, MempoolError>) -> Result<
    Option<FramePaymasterReservation>,
    MempoolError,
> {
    match r {
        Ok(admitted) => Ok(admitted.reservation),
        Err(e) => Err(e),
    }
}

/// The verdict over a transaction before it is run: the first rule that it breaks decides.
pub open spec fn static_verdict(tx: Transaction, rules: AdmissionRules, facts: StaticFacts) -> Result<
    Admitted,
    FaultView,
> {
    match kind_verdict(rules.kind, tx) {
        Err(e) => Err(e@),
        Ok(true) => Ok(Admitted { replaces: None, reservation: None, account_nonce: None }),
        Ok(false) => match facts.head {
            Err(e) => Err(e@),
            Ok(None) => Err(FaultView::Other(MempoolError::NoBlockHeaderError)),
            Ok(Some(head)) => match fault_at(tx, rules, head, facts) {
                Some(e) => Err(e),
                None => Ok(
                    Admitted {
                        replaces: facts.pool.replaces->Ok_0,
                        reservation: None,
                        account_nonce: nonce_of(facts.sender->Ok_0),
                    },
                ),
            },
        },
    }
}

/// `r` is the verdict over a transaction. Only a frame transaction is run, and only where
/// it keeps all other rules.
pub open spec fn verdict(
    tx: Transaction,
    rules: AdmissionRules,
    facts: AdmissionFacts,
    r: Result<Admitted, MempoolError>,
) -> bool {
    match static_verdict(tx, rules, facts.before) {
        Err(e) => told(r) == Err::<Admitted, FaultView>(e),
        Ok(admitted) => if tx.tx_type is Frame {
            &&& r matches Ok(a) ==> a == (Admitted { reservation: a.reservation, ..admitted })
            &&& simulation_allows(
                facts.simulation,
                |address: Address, ran: bool, cost: U256|
                    paymaster_verdict(
                        address,
                        ran,
                        cost,
                        admitted.replaces is Some,
                        facts.paymaster,
                        rules.limits,
                    ),
                reservation_part(r),
            )
        } else {
            r == Ok::<Admitted, MempoolError>(admitted)
        },
    }
}

/// Whether a transaction keeps all rules that can be told before it is run. A frame
/// transaction is run only where it does.
pub fn check_before_simulation(tx: &Transaction, rules: &AdmissionRules, facts: StaticFacts) -> (r:
    Result<Admitted, MempoolError>)
    ensures
        told(r) == static_verdict(*tx, *rules, facts),
{
    match check_kind(rules.kind, tx) {
        Err(e) => return Err(e),
        Ok(true) => return Ok(
            Admitted { replaces: None, reservation: None, account_nonce: None },
        ),
        Ok(false) => {},
    }
    let StaticFacts { head, frame, intrinsic_gas, sender, sender_code, pool } = facts;
    let head = match head {
        Err(e) => return Err(e),
        Ok(None) => return Err(MempoolError::NoBlockHeaderError),
        Ok(Some(head)) => head,
    };
    match check_frame(tx, &rules.config, head.timestamp, frame, &rules.limits) {
        Err(e) => return Err(e),
        Ok(()) => {},
    }
    let cost = match check_shape(
        tx,
        &rules.config,
        head.timestamp,
        head.gas_limit,
        &rules.limits,
        intrinsic_gas,
    ) {
        Err(e) => return Err(e),
        Ok(cost) => cost,
    };
    let info = match sender {
        Err(e) => return Err(e),
        Ok(info) => info,
    };
    let balance = match check_sender(tx, cost, info, sender_code) {
        Err(e) => return Err(e),
        Ok(balance) => balance,
    };
    let account_nonce = match info {
        Some(info) => Some(info.nonce),
        None => None,
    };
    let replaces = match check_pool(
        tx,
        SenderFunds { balance, cost },
        number_or_zero(account_nonce),
        rules.config.chain_id,
        rules.gap_threshold,
        pool,
    ) {
        Err(e) => return Err(e),
        Ok(replaces) => replaces,
    };
    Ok(Admitted { replaces, reservation: None, account_nonce })
}

/// What becomes of a frame transaction that keeps all other rules once it was run, or of
/// another transaction.
pub fn check_after_simulation(
    tx: &Transaction,
    rules: &AdmissionRules,
    admitted: Admitted,
    simulation: Simulation,
    paymaster: PaymasterFacts,
) -> (r: Result<Admitted, MempoolError>)
    ensures
        if tx.tx_type is Frame {
            &&& r matches Ok(a) ==> a == (Admitted { reservation: a.reservation, ..admitted })
            &&& simulation_allows(
                simulation,
                |address: Address, ran: bool, cost: U256|
                    paymaster_verdict(
                        address,
                        ran,
                        cost,
                        admitted.replaces is Some,
                        paymaster,
                        rules.limits,
                    ),
                reservation_part(r),
            )
        } else {
            r == Ok::<Admitted, MempoolError>(admitted)
        },
{
    if tx.tx_type != TxType::Frame {
        return Ok(admitted);
    }
    match check_simulation(simulation, admitted.replaces.is_some(), paymaster, &rules.limits) {
        Err(e) => Err(e),
        Ok(reservation) => Ok(
            Admitted {
                replaces: admitted.replaces,
                reservation,
                account_nonce: admitted.account_nonce,
            },
        ),
    }
}

/// Whether a transaction is taken into the mempool.
pub fn validate_transaction(tx: &Transaction, rules: &AdmissionRules, facts: AdmissionFacts) -> (r:
    Result<Admitted, MempoolError>)
    ensures
        verdict(*tx, *rules, facts, r),
{
    let AdmissionFacts { before, simulation, paymaster } = facts;
    match check_before_simulation(tx, rules, before) {
        Err(e) => Err(e),
        Ok(admitted) => check_after_simulation(tx, rules, admitted, simulation, paymaster),
    }
}

/// An ordinary transaction that was taken in is one that its sender can pay for besides
/// all that it has waiting, that fits the latest block and the wire, that is of this chain
/// and whose nonce has not been used.
pub proof fn law_admitted_transaction_is_sound(
    tx: Transaction,
    rules: AdmissionRules,
    facts: AdmissionFacts,
    head: Head,
    admitted: Admitted,
)
    requires
        verdict(tx, rules, facts, Ok(admitted)),
        facts.before.head == Ok::<Option<Head>, MempoolError>(Some(head)),
        !(tx.tx_type is Privileged),
        !(tx.tx_type is Frame),
    ensures
        !(rules.kind is L1 && tx.tx_type.l2_only()),
        facts.before.sender matches Ok(Some(info)) && {
            &&& info.nonce <= tx.nonce < u64::MAX
            &&& facts.before.pool.pending_cost matches Ok(pending) && pending@ + max_cost(tx)
                <= info.balance@
            &&& admitted.account_nonce == Some(info.nonce)
        },
        tx.gas_limit <= head.gas_limit,
        facts.before.intrinsic_gas matches Ok(gas) && gas <= tx.gas_limit,
        tx.chain_id is Some ==> tx.chain_id->0 == rules.config.chain_id,
        tx.tx_type is EIP4844 || tx.encoded_len <= rules.limits.max_tx_size,
        admitted.reservation is None,
{
    crate::word::lemma_word_of(max_cost(tx) as int);
}

/// A frame transaction that replaces no other one and has a paymaster was taken in only
/// where the paymaster covers it besides all that is set aside.
pub proof fn law_reservation_is_covered(
    tx: Transaction,
    rules: AdmissionRules,
    facts: AdmissionFacts,
    admitted: Admitted,
    reservation: FramePaymasterReservation,
)
    requires
        verdict(tx, rules, facts, Ok(admitted)),
        admitted.reservation == Some(reservation),
        admitted.replaces is None,
    ensures
        tx.tx_type is Frame,
        facts.paymaster.reserved matches Ok(reserved) && (reservation.reserved_cost@ > 0
            ==> reserved@ + reservation.reserved_cost@ <= reservation.paymaster_balance@),
{
}

} // verus!
