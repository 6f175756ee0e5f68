//! Which transactions the mempool owes a place, and what the others are told.

use crate::account::{empty_keccak, AccountInfo};
use crate::blockchain::admission::{
    told, verdict, AdmissionFacts, AdmissionLimits, AdmissionRules, Admitted, FaultView,
    FrameChecks, Head, MempoolError, PoolFacts, SenderCode, Simulation,
};
use crate::config::ChainConfig;
use crate::transaction::{gas_tip, max_cost, Transaction, TxType};
use crate::word::{lemma_word_bound, lemma_word_of, H256, U256};
use vstd::prelude::*;

verus! {

/// A rule that starts at a time, where it ever does, has started.
pub open spec fn started(start: Option<u64>, now: u64) -> bool {
    match start {
        Some(time) => time <= now,
        None => false,
    }
}

/// A fee that may be left out.
pub open spec fn fee(n: Option<u64>) -> int {
    match n {
        Some(x) => x as int,
        None => 0,
    }
}

/// What a transaction can cost: its fee cap for each unit of gas, its blob fee for each
/// of the 131072 units of each blob, and its value.
pub open spec fn full_cost(tx: Transaction) -> int {
    tx.gas_fee_cap@ * tx.gas_limit + tx.value@ + match tx.max_fee_per_blob_gas {
        Some(fee) => fee@ * 131072 * tx.blob_hash_count,
        None => 0,
    }
}

/// 2^256.
pub open spec fn word_limit() -> int {
    0x1_0000_0000_0000_0000_0000_0000_0000_0000_0000_0000_0000_0000_0000_0000_0000_0000int
}

/// A transaction costs its gas at the fee cap, its blobs at the blob fee, and its value.
pub proof fn law_full_cost(tx: Transaction)
    ensures
        max_cost(tx) == full_cost(tx),
{
    assert(crate::transaction::GAS_PER_BLOB as nat == 131072);
}

/// A tip is at most the tip cap, and with the base fee at most the fee cap, and is one of
/// the two; there is none exactly where the fee cap does not cover the base fee.
pub proof fn law_tip_is_the_smaller_bound(tx: Transaction, base_fee: Option<u64>)
    ensures
        gas_tip(tx, base_fee) is None <==> base_fee is Some && tx.gas_fee_cap@ < base_fee->0,
        gas_tip(tx, base_fee) matches Some(tip) ==> {
            let room = tx.gas_fee_cap@ - base_fee->0;
            &&& tip@ <= tx.gas_tip_cap@
            &&& base_fee is None ==> tip@ == tx.gas_tip_cap@
            &&& base_fee is Some ==> tip@ <= room && (tip@ == room || tip@ == tx.gas_tip_cap@)
        },
{
    lemma_word_bound(tx.gas_fee_cap);
    if base_fee is Some && tx.gas_fee_cap@ >= base_fee->0 {
        lemma_word_of(tx.gas_fee_cap@ - base_fee->0);
    }
}

/// No two kinds of transactions start with the same byte, and only the two kinds of a
/// rollup are for rollups alone.
pub proof fn law_kinds_of_transactions(a: TxType, b: TxType)
    ensures
        a.wire() == b.wire() ==> a == b,
        a.l2_only() <==> a is FeeToken || a is Privileged,
        TxType::Legacy.wire() == 0,
        TxType::EIP2930.wire() == 1,
        TxType::EIP1559.wire() == 2,
        TxType::EIP4844.wire() == 3,
        TxType::EIP7702.wire() == 4,
{
}

/// A transaction fits the wire, its init code is not too long, and its gas limit is that
/// of one transaction and of the block at most.
pub open spec fn fits(
    tx: Transaction,
    config: ChainConfig,
    limits: AdmissionLimits,
    head: Head,
) -> bool {
    let longest = if started(config.amsterdam_time, head.timestamp) {
        limits.amsterdam_max_initcode_size
    } else {
        limits.max_initcode_size
    };
    &&& tx.tx_type is EIP4844 || tx.encoded_len <= limits.max_tx_size
    &&& started(config.shanghai_time, head.timestamp) && tx.to is None ==> tx.data_len <= longest
    &&& started(config.osaka_time, head.timestamp) && !started(
        config.amsterdam_time,
        head.timestamp,
    ) ==> tx.gas_limit <= limits.post_osaka_gas_limit_cap
    &&& tx.gas_limit <= head.gas_limit
}

/// The fees of a transaction make sense: its tip is at most its fee cap, it covers the
/// gas that it takes before it is run, its blob fee is not too low, and its cost can be
/// held in a word.
pub open spec fn priced(tx: Transaction, limits: AdmissionLimits, gas: u64) -> bool {
    &&& fee(tx.max_priority_fee) <= fee(tx.max_fee_per_gas)
    &&& gas <= tx.gas_limit
    &&& tx.max_fee_per_blob_gas matches Some(blob_fee) ==> blob_fee@
        >= limits.min_base_fee_per_blob_gas
    &&& full_cost(tx) < word_limit()
}

/// A transaction that sets code is allowed and sets some.
pub open spec fn authorizes(tx: Transaction, config: ChainConfig, head: Head) -> bool {
    tx.tx_type is EIP7702 ==> started(config.prague_time, head.timestamp)
        && tx.authorization_count > 0
}

/// The sender has no code, or 23 bytes that name another account's.
pub open spec fn may_send(info: AccountInfo, code: SenderCode) -> bool {
    info.code_hash == empty_keccak() || (code.length == Ok::<Option<u64>, String>(Some(23))
        && code.is_delegation == Ok::<Option<bool>, String>(Some(true)))
}

/// Taking the transaction in leaves no nonce out while the mempool is fuller than it may
/// be for that: it replaces another one, it is the sender's next one, or there is room.
pub open spec fn no_gap_under_pressure(
    tx: Transaction,
    nonce: u64,
    threshold: u8,
    pool: PoolFacts,
) -> bool {
    ||| pool.replaces->Ok_0 is Some
    ||| tx.nonce == nonce
    ||| threshold >= 100
    ||| (pool.occupancy_pct matches Ok(pct) && pct < threshold)
}

/// An ordinary transaction is taken in exactly where it is for this chain, fits the wire,
/// the init code limit and the gas limits, its tip is at most its fee cap, it covers its
/// intrinsic gas, its nonce has not been used, and its sender may send it and can pay for
/// it besides all that waits; and where the mempool is under pressure it leaves no nonce
/// out. What it replaces and the sender's nonce are then told, and nothing is set aside.
pub proof fn law_sound_transactions_are_admitted(
    tx: Transaction,
    rules: AdmissionRules,
    facts: AdmissionFacts,
    head: Head,
    info: AccountInfo,
    gas: u64,
    pending: U256,
    replaces: Option<H256>,
    r: Result<Admitted, MempoolError>,
)
    requires
        verdict(tx, rules, facts, r),
        !(tx.tx_type is Privileged),
        !(tx.tx_type is Frame),
        facts.before.head == Ok::<Option<Head>, MempoolError>(Some(head)),
        facts.before.sender == Ok::<Option<AccountInfo>, MempoolError>(Some(info)),
        facts.before.intrinsic_gas == Ok::<u64, MempoolError>(gas),
        facts.before.pool.pending_cost == Ok::<U256, MempoolError>(pending),
        facts.before.pool.replaces == Ok::<Option<H256>, MempoolError>(replaces),
    ensures
        r is Ok <==> {
            &&& rules.kind is L1 ==> !(tx.tx_type is FeeToken)
            &&& fits(tx, rules.config, rules.limits, head)
            &&& priced(tx, rules.limits, gas)
            &&& authorizes(tx, rules.config, head)
            &&& info.nonce <= tx.nonce < 0xffff_ffff_ffff_ffff
            &&& may_send(info, facts.before.sender_code)
            &&& pending@ + full_cost(tx) <= info.balance@
            &&& tx.chain_id is Some ==> tx.chain_id->0 == rules.config.chain_id
            &&& no_gap_under_pressure(tx, info.nonce, rules.gap_threshold, facts.before.pool)
        },
        r matches Ok(admitted) ==> admitted.replaces == replaces && admitted.reservation is None
            && admitted.account_nonce == Some(info.nonce),
{
    law_full_cost(tx);
    if max_cost(tx) < crate::word::two_256() {
        lemma_word_of(max_cost(tx) as int);
    }
    lemma_word_bound(info.balance);
}

/// The operator's own transactions are always taken in on a rollup, and never on the
/// chain itself; nor are those that pay in another token.
pub proof fn law_kinds_are_admitted(
    tx: Transaction,
    rules: AdmissionRules,
    facts: AdmissionFacts,
    r: Result<Admitted, MempoolError>,
)
    requires
        verdict(tx, rules, facts, r),
    ensures
        rules.kind is L1 && (tx.tx_type is Privileged || tx.tx_type is FeeToken) ==> told(r)
            == Err::<Admitted, FaultView>(FaultView::Other(MempoolError::L2OnlyTransactionType)),
        !(rules.kind is L1) && tx.tx_type is Privileged ==> r is Ok && r->Ok_0.replaces is None
            && r->Ok_0.reservation is None && r->Ok_0.account_nonce is None,
        !(rules.kind is L1 && (tx.tx_type is Privileged || tx.tx_type is FeeToken))
            && !(tx.tx_type is Privileged) && facts.before.head == Ok::<Option<Head>, MempoolError>(
            None,
        ) ==> told(r) == Err::<Admitted, FaultView>(
            FaultView::Other(MempoolError::NoBlockHeaderError),
        ),
{
}

/// A refused transaction is told so.
pub open spec fn refused(r: Result<Admitted, MempoolError>, e: MempoolError) -> bool {
    told(r) == Err::<Admitted, FaultView>(FaultView::Other(e))
}

/// What is wrong with an ordinary transaction is told: of its size, its init code, its
/// gas limits, its fees, its authorizations, its intrinsic gas, its blob fee and its cost,
/// in this order, the first rule that it breaks.
pub proof fn law_refusals_of_the_shape(
    tx: Transaction,
    rules: AdmissionRules,
    facts: AdmissionFacts,
    head: Head,
    gas: u64,
    r: Result<Admitted, MempoolError>,
)
    requires
        verdict(tx, rules, facts, r),
        !(tx.tx_type is Privileged),
        !(tx.tx_type is Frame),
        !(rules.kind is L1 && tx.tx_type is FeeToken),
        facts.before.head == Ok::<Option<Head>, MempoolError>(Some(head)),
        facts.before.intrinsic_gas == Ok::<u64, MempoolError>(gas),
    ensures
        ({
            let config = rules.config;
            let limits = rules.limits;
            let now = head.timestamp;
            let longest = if started(config.amsterdam_time, now) {
                limits.amsterdam_max_initcode_size
            } else {
                limits.max_initcode_size
            };
            if !(tx.tx_type is EIP4844) && tx.encoded_len > limits.max_tx_size {
                refused(
                    r,
                    MempoolError::TxSizeExceeded {
                        actual: tx.encoded_len,
                        limit: limits.max_tx_size,
                    },
                )
            } else if started(config.shanghai_time, now) && tx.to is None && tx.data_len > longest {
                refused(r, MempoolError::TxMaxInitCodeSizeError)
            } else if started(config.osaka_time, now) && !started(config.amsterdam_time, now)
                && tx.gas_limit > limits.post_osaka_gas_limit_cap {
                refused(r, MempoolError::TxMaxGasLimitExceededError(tx.hash, tx.gas_limit))
            } else if tx.gas_limit > head.gas_limit {
                refused(r, MempoolError::TxGasLimitExceededError)
            } else if fee(tx.max_priority_fee) > fee(tx.max_fee_per_gas) {
                refused(r, MempoolError::TxTipAboveFeeCapError)
            } else if tx.tx_type is EIP7702 && !started(config.prague_time, now) {
                refused(r, MempoolError::Eip7702TxPreFork)
            } else if tx.tx_type is EIP7702 && tx.authorization_count == 0 {
                refused(r, MempoolError::EmptyAuthorizationList)
            } else if tx.gas_limit < gas {
                refused(r, MempoolError::TxIntrinsicGasCostAboveLimitError)
            } else if tx.max_fee_per_blob_gas is Some && tx.max_fee_per_blob_gas->0@
                < limits.min_base_fee_per_blob_gas {
                refused(r, MempoolError::TxBlobBaseFeeTooLowError)
            } else if full_cost(tx) >= word_limit() {
                refused(r, MempoolError::InvalidTxGasvalues)
            } else {
                true
            }
        }),
{
    law_full_cost(tx);
}

/// What is wrong with the sender of an ordinary transaction, or with its place in the
/// mempool, is told: a used nonce, a sender that is a contract, too little balance for
/// the transaction and for all that waits, another chain, and a gap under pressure, in
/// this order, the first rule that it breaks.
pub proof fn law_refusals_of_the_sender(
    tx: Transaction,
    rules: AdmissionRules,
    facts: AdmissionFacts,
    head: Head,
    info: AccountInfo,
    gas: u64,
    pending: U256,
    replaces: Option<H256>,
    r: Result<Admitted, MempoolError>,
)
    requires
        verdict(tx, rules, facts, r),
        !(tx.tx_type is Privileged),
        !(tx.tx_type is Frame),
        !(rules.kind is L1 && tx.tx_type is FeeToken),
        facts.before.head == Ok::<Option<Head>, MempoolError>(Some(head)),
        facts.before.sender == Ok::<Option<AccountInfo>, MempoolError>(Some(info)),
        facts.before.intrinsic_gas == Ok::<u64, MempoolError>(gas),
        facts.before.pool.pending_cost == Ok::<U256, MempoolError>(pending),
        facts.before.pool.replaces == Ok::<Option<H256>, MempoolError>(replaces),
        fits(tx, rules.config, rules.limits, head),
        priced(tx, rules.limits, gas),
        authorizes(tx, rules.config, head),
    ensures
        ({
            let code = facts.before.sender_code;
            let total = pending@ + full_cost(tx);
            if tx.nonce < info.nonce || tx.nonce == 0xffff_ffff_ffff_ffff {
                refused(r, MempoolError::NonceTooLow)
            } else if info.code_hash != empty_keccak() && code.length is Ok && code.length->Ok_0
                != Some(23u64) {
                refused(r, MempoolError::SenderIsContract)
            } else if info.code_hash != empty_keccak() && code.length is Ok && code.is_delegation
                == Ok::<Option<bool>, String>(Some(false)) {
                refused(r, MempoolError::SenderIsContract)
            } else if info.code_hash != empty_keccak() && !may_send(info, code) {
                told(r) matches Err(FaultView::Store(_))
            } else if full_cost(tx) > info.balance@ {
                refused(r, MempoolError::NotEnoughBalance)
            } else if total >= word_limit() {
                refused(r, MempoolError::InvalidTxGasvalues)
            } else if total > info.balance@ {
                told(r) matches Err(
                    FaultView::Other(
                        MempoolError::InsufficientCumulativeBalance { required, available },
                    ),
                ) && required@ == total && available == info.balance
            } else if tx.chain_id is Some && tx.chain_id->0 != rules.config.chain_id {
                refused(r, MempoolError::InvalidChainId(rules.config.chain_id))
            } else if !no_gap_under_pressure(
                tx,
                info.nonce,
                rules.gap_threshold,
                facts.before.pool,
            ) && facts.before.pool.occupancy_pct is Ok {
                refused(
                    r,
                    MempoolError::GapAdmissionDeniedUnderPressure {
                        occupancy_pct: facts.before.pool.occupancy_pct->Ok_0,
                        nonce_gap: (tx.nonce - info.nonce) as u64,
                    },
                )
            } else {
                true
            }
        }),
{
    law_full_cost(tx);
    lemma_word_of(max_cost(tx) as int);
    lemma_word_bound(info.balance);
    if pending@ + full_cost(tx) < word_limit() {
        lemma_word_of(pending@ + full_cost(tx));
    }
}

/// The checks of a frame transaction that can be made before it is run all passed.
pub open spec fn frame_kept(
    tx: Transaction,
    config: ChainConfig,
    limits: AdmissionLimits,
    head: Head,
    checks: FrameChecks,
) -> bool {
    &&& started(config.hegota_time, head.timestamp)
    &&& tx.expiry_deadline matches Some(deadline) ==> deadline >= head.timestamp
    &&& checks.static_constraints is Ok
    &&& tx.blob_hash_count == 0
    &&& checks.signature_verification_cost <= limits.frame_tx_max_verify_gas
    &&& checks.signatures_valid
    &&& checks.signatures_low_s
    &&& checks.prefix is Ok
    &&& checks.prefix_structure is Ok
}

/// The paymaster covers the cost besides what is set aside, and an unknown one does not
/// stand behind too many waiting transactions.
pub open spec fn paymaster_stands(
    known: bool,
    cost: U256,
    balance: Option<U256>,
    reserved: U256,
    pending: u64,
    limits: AdmissionLimits,
) -> bool {
    let has = match balance {
        Some(b) => b@ as int,
        None => 0,
    };
    &&& cost@ > 0 ==> reserved@ + cost@ <= has
    &&& !known ==> pending < limits.max_pending_noncanonical_paymaster
}

/// A frame transaction is taken in exactly where it keeps the rules for frames and for
/// the shape of a transaction, its nonce has not been used, it is of this chain and leaves
/// no nonce out under pressure, its validation prefix passed, and, unless it replaces
/// another one, its paymaster, where it has one, stands behind it. Neither the sender's
/// balance nor its code matters. What is set aside is what the run says that it costs, of
/// that paymaster's balance.
pub proof fn law_frame_transactions_are_admitted(
    tx: Transaction,
    rules: AdmissionRules,
    facts: AdmissionFacts,
    head: Head,
    info: Option<AccountInfo>,
    gas: u64,
    replaces: Option<H256>,
    balance: Option<U256>,
    reserved: U256,
    pending: u64,
    canonical: bool,
    r: Result<Admitted, MempoolError>,
)
    requires
        verdict(tx, rules, facts, r),
        tx.tx_type is Frame,
        facts.before.head == Ok::<Option<Head>, MempoolError>(Some(head)),
        facts.before.sender == Ok::<Option<AccountInfo>, MempoolError>(info),
        facts.before.intrinsic_gas == Ok::<u64, MempoolError>(gas),
        facts.before.pool.replaces == Ok::<Option<H256>, MempoolError>(replaces),
        facts.paymaster.balance == Ok::<Option<U256>, MempoolError>(balance),
        facts.paymaster.reserved == Ok::<U256, MempoolError>(reserved),
        facts.paymaster.noncanonical_pending == Ok::<u64, MempoolError>(pending),
        facts.paymaster.code_is_canonical == Ok::<bool, MempoolError>(canonical),
    ensures
        ({
            let nonce = match info {
                Some(info) => info.nonce,
                None => 0,
            };
            let kept = {
                &&& frame_kept(tx, rules.config, rules.limits, head, facts.before.frame)
                &&& fits(tx, rules.config, rules.limits, head)
                &&& priced(tx, rules.limits, gas)
                &&& nonce <= tx.nonce < 0xffff_ffff_ffff_ffff
                &&& tx.chain_id is Some ==> tx.chain_id->0 == rules.config.chain_id
                &&& no_gap_under_pressure(tx, nonce, rules.gap_threshold, facts.before.pool)
            };
            &&& !kept ==> r is Err
            &&& r matches Ok(admitted) ==> admitted.replaces == replaces && (match info {
                Some(info) => admitted.account_nonce == Some(info.nonce),
                None => admitted.account_nonce is None,
            })
            &&& kept ==> match facts.simulation {
                Simulation::Failed(why) => told(r) == Err::<Admitted, FaultView>(
                    FaultView::Other(MempoolError::FrameTxValidationFailed(why)),
                ),
                Simulation::Done { passed: false, violation, .. } => r is Err && (r->Err_0 matches
                    MempoolError::FrameTxValidationFailed(why) && (violation matches Some(words)
                    ==> why@ == words@) && (violation is None ==> why@
                    == "validation prefix did not pass"@)),
                Simulation::Done { passed: true, paymaster: None, .. } => r is Ok
                    && r->Ok_0.reservation is None,
                Simulation::Done {
                    passed: true,
                    paymaster: Some((address, ran)),
                    max_cost,
                    ..
                } => {
                    let known = ran || (facts.paymaster.canonical_is_known && canonical);
                    &&& r is Ok <==> replaces is Some || paymaster_stands(
                        known,
                        max_cost,
                        balance,
                        reserved,
                        pending,
                        rules.limits,
                    )
                    &&& r is Ok ==> (r->Ok_0.reservation matches Some(aside) && aside.paymaster
                        == address && aside.reserved_cost == max_cost && aside.is_canonical
                        == known && aside.paymaster_balance@ == (match balance {
                        Some(b) => b@,
                        None => 0,
                    }))
                    &&& r is Err ==> told(r) == Err::<Admitted, FaultView>(
                        FaultView::Other(
                            if max_cost@ > 0 && reserved@ + max_cost@ > (match balance {
                                Some(b) => b@ as int,
                                None => 0,
                            }) {
                                MempoolError::FrameTxPaymasterUnderfunded
                            } else {
                                MempoolError::FrameTxNonCanonicalPaymasterLimit
                            },
                        ),
                    )
                },
            }
        }),
{
    law_full_cost(tx);
    if max_cost(tx) < crate::word::two_256() {
        lemma_word_of(max_cost(tx) as int);
    }
}

/// What is wrong with a frame transaction before it is run is told: that frames are not
/// there yet, that it is too late, that it breaks a rule of frames, that it carries blobs,
/// that its signatures take too much gas, are wrong or malleable, or that its validation
/// prefix is wrong, in this order, the first of them.
pub proof fn law_refusals_of_frames(
    tx: Transaction,
    rules: AdmissionRules,
    facts: AdmissionFacts,
    head: Head,
    r: Result<Admitted, MempoolError>,
)
    requires
        verdict(tx, rules, facts, r),
        tx.tx_type is Frame,
        facts.before.head == Ok::<Option<Head>, MempoolError>(Some(head)),
    ensures
        ({
            let checks = facts.before.frame;
            if !started(rules.config.hegota_time, head.timestamp) {
                refused(r, MempoolError::FrameTxPreFork)
            } else if tx.expiry_deadline is Some && tx.expiry_deadline->0 < head.timestamp {
                refused(r, MempoolError::FrameTxExpired)
            } else if checks.static_constraints is Err {
                refused(
                    r,
                    MempoolError::InvalidFrameTransaction(checks.static_constraints->Err_0),
                )
            } else if tx.blob_hash_count != 0 {
                refused(r, MempoolError::FrameTxBlobsUnsupported)
            } else if checks.signature_verification_cost
                > rules.limits.frame_tx_max_verify_gas {
                refused(r, MempoolError::FrameTxVerifyGasExceeded)
            } else if !checks.signatures_valid {
                refused(r, MempoolError::InvalidFrameSignature)
            } else if !checks.signatures_low_s {
                refused(r, MempoolError::FrameTxMalleableSignature)
            } else if checks.prefix is Err {
                refused(r, MempoolError::FrameTxPrefix(checks.prefix->Err_0))
            } else if checks.prefix_structure is Err {
                refused(r, MempoolError::FrameTxPrefix(checks.prefix_structure->Err_0))
            } else {
                true
            }
        }),
{
}

/// A sender without an account can send nothing but a frame transaction.
pub proof fn law_unknown_sender_cannot_pay(
    tx: Transaction,
    rules: AdmissionRules,
    facts: AdmissionFacts,
    head: Head,
    gas: u64,
    r: Result<Admitted, MempoolError>,
)
    requires
        verdict(tx, rules, facts, r),
        !(tx.tx_type is Privileged),
        !(tx.tx_type is Frame),
        !(rules.kind is L1 && tx.tx_type is FeeToken),
        facts.before.head == Ok::<Option<Head>, MempoolError>(Some(head)),
        facts.before.sender == Ok::<Option<AccountInfo>, MempoolError>(None),
        facts.before.intrinsic_gas == Ok::<u64, MempoolError>(gas),
        fits(tx, rules.config, rules.limits, head),
        priced(tx, rules.limits, gas),
        authorizes(tx, rules.config, head),
    ensures
        refused(r, MempoolError::NotEnoughBalance),
{
    law_full_cost(tx);
}

/// What the store or the mempool could not tell is the answer, where it was needed: the
/// head, the intrinsic gas of a transaction that fits, the account of one that is priced
/// well, and what the mempool knows of one whose sender may send it.
pub proof fn law_missing_answers_are_told(
    tx: Transaction,
    rules: AdmissionRules,
    facts: AdmissionFacts,
    head: Head,
    gas: u64,
    info: AccountInfo,
    r: Result<Admitted, MempoolError>,
)
    requires
        verdict(tx, rules, facts, r),
        !(tx.tx_type is Privileged),
        !(tx.tx_type is Frame),
        !(rules.kind is L1 && tx.tx_type is FeeToken),
    ensures
        facts.before.head matches Err(e) ==> told(r) == Err::<Admitted, FaultView>(e@),
        facts.before.head == Ok::<Option<Head>, MempoolError>(Some(head)) && fits(
            tx,
            rules.config,
            rules.limits,
            head,
        ) && fee(tx.max_priority_fee) <= fee(tx.max_fee_per_gas) && authorizes(
            tx,
            rules.config,
            head,
        ) ==> {
            &&& facts.before.intrinsic_gas matches Err(e) ==> told(r) == Err::<
                Admitted,
                FaultView,
            >(e@)
            &&& facts.before.intrinsic_gas == Ok::<u64, MempoolError>(gas) && priced(
                tx,
                rules.limits,
                gas,
            ) ==> {
                &&& facts.before.sender matches Err(e) ==> told(r) == Err::<Admitted, FaultView>(
                    e@,
                )
                &&& facts.before.sender == Ok::<Option<AccountInfo>, MempoolError>(Some(info))
                    && info.nonce <= tx.nonce < 0xffff_ffff_ffff_ffff && may_send(
                    info,
                    facts.before.sender_code,
                ) && full_cost(tx) <= info.balance@ ==> {
                    &&& facts.before.pool.replaces matches Err(e) ==> told(r) == Err::<
                        Admitted,
                        FaultView,
                    >(e@)
                    &&& facts.before.pool.replaces is Ok && facts.before.pool.pending_cost is Err
                        ==> told(r) == Err::<Admitted, FaultView>(
                        facts.before.pool.pending_cost->Err_0@,
                    )
                }
            }
        },
{
    law_full_cost(tx);
    if max_cost(tx) < crate::word::two_256() {
        lemma_word_of(max_cost(tx) as int);
    }
}

} // verus!
