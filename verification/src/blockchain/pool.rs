//! What is done with the mempool: taking transactions in, and letting go of those that
//! can no longer be included.

use crate::block::Block;
use crate::blockchain::admission::{paymaster_funds, AdmissionLimits, Admitted, MempoolError};
use crate::hex::short_form;
use crate::table::Table;
use crate::transaction::{Transaction, TxType};
use crate::word::{Address, H256, U256};
use vstd::prelude::*;
use vstd::string::*;

verus! {

/// How many transactions with a nonce gap a sender may have waiting.
#[derive(Copy, Clone, PartialEq, Eq, Structural, Debug)]
pub struct QueuedCap {
    /// The nonce that the sender has on the chain.
    pub account_nonce: u64,
    pub max: usize,
}

/// What is to be done next with a transaction that was submitted.
pub enum SubmissionPhase {
    /// It is looked up in the mempool.
    LookUp,
    /// Its blobs are checked.
    ValidateBundle,
    /// Its sender is recovered from the signature.
    RecoverSender,
    /// It is held to the rules for admission.
    Validate,
    /// The transaction that it replaces is removed.
    Remove(H256),
    /// Its blobs are added.
    AddBundle,
    /// It is added, with what is set aside for it.
    Insert,
    /// Its blobs are removed again, the transaction not having been added.
    RemoveBundle(MempoolError),
    Done(Result<H256, MempoolError>),
}

/// What came of what was to be done.
pub enum SubmissionEvent {
    LookedUp(Result<bool, String>),
    BundleValidated(Result<(), MempoolError>),
    SenderRecovered(Result<(), MempoolError>),
    Validated(Result<Admitted, MempoolError>),
    Removed(Result<(), String>),
    BundleAdded(Result<(), MempoolError>),
    Inserted(Result<(), MempoolError>),
    /// Whether the blobs could be removed makes no difference.
    BundleRemoved,
}

/// A transaction that was submitted.
pub struct Submission {
    pub phase: SubmissionPhase,
    pub transaction: Transaction,
    /// The size of its blobs on the wire, where they came with it.
    pub bundle_len: Option<usize>,
    /// What admission came to, once it is known.
    pub admitted: Option<Admitted>,
}

/// A submission that has ended.
pub open spec fn refused(e: MempoolError) -> SubmissionPhase {
    SubmissionPhase::Done(Err(e))
}

/// How a submission starts.
pub open spec fn first_phase(
    tx: Transaction,
    bundle_len: Option<usize>,
    limits: AdmissionLimits,
) -> SubmissionPhase {
    if bundle_len is Some {
        SubmissionPhase::LookUp
    } else if tx.tx_type is EIP4844 {
        refused(MempoolError::BlobTxNoBlobsBundle)
    } else if tx.encoded_len > limits.max_tx_size {
        refused(
            MempoolError::TxSizeExceeded { actual: tx.encoded_len, limit: limits.max_tx_size },
        )
    } else {
        SubmissionPhase::LookUp
    }
}

/// The cap on the sender's waiting transactions. A replacement makes them no more.
pub open spec fn cap_for(admitted: Admitted, max: usize) -> Option<QueuedCap> {
    if admitted.replaces is Some {
        None
    } else {
        match admitted.account_nonce {
            Some(account_nonce) => Some(QueuedCap { account_nonce, max }),
            None => None,
        }
    }
}

/// The cap on the sender's waiting transactions. A replacement makes them no more.
pub fn queued_cap(admitted: &Admitted, max_queued_txs_per_account: usize) -> (cap: Option<
    QueuedCap,
>)
    ensures
        cap == cap_for(*admitted, max_queued_txs_per_account),
{
    if admitted.replaces.is_some() {
        None
    } else {
        match admitted.account_nonce {
            Some(account_nonce) => Some(
                QueuedCap { account_nonce, max: max_queued_txs_per_account },
            ),
            None => None,
        }
    }
}

impl Submission {
    /// What follows once nothing has to be removed any more.
    pub open spec fn insertion(self) -> SubmissionPhase {
        if self.bundle_len is Some {
            SubmissionPhase::AddBundle
        } else {
            SubmissionPhase::Insert
        }
    }

    pub open spec fn at(self, phase: SubmissionPhase) -> Submission {
        Submission { phase, ..self }
    }

    /// The submission after an event.
    pub open spec fn after(self, event: SubmissionEvent, limits: AdmissionLimits) -> Submission {
        match (self.phase, event) {
            (SubmissionPhase::LookUp, SubmissionEvent::LookedUp(Err(why))) => self.at(
                refused(MempoolError::StoreError(why)),
            ),
            (SubmissionPhase::LookUp, SubmissionEvent::LookedUp(Ok(known))) => self.at(
                if known {
                    SubmissionPhase::Done(Ok(self.transaction.hash))
                } else if self.bundle_len is None {
                    SubmissionPhase::RecoverSender
                } else if self.transaction.encoded_len + self.bundle_len->0
                    > limits.max_blob_tx_size {
                    refused(
                        MempoolError::TxSizeExceeded {
                            actual: (self.transaction.encoded_len + self.bundle_len->0) as usize,
                            limit: limits.max_blob_tx_size,
                        },
                    )
                } else {
                    SubmissionPhase::ValidateBundle
                },
            ),
            (SubmissionPhase::ValidateBundle, SubmissionEvent::BundleValidated(r)) => self.at(
                match r {
                    Ok(()) => SubmissionPhase::RecoverSender,
                    Err(e) => refused(e),
                },
            ),
            (SubmissionPhase::RecoverSender, SubmissionEvent::SenderRecovered(r)) => self.at(
                match r {
                    Ok(()) => SubmissionPhase::Validate,
                    Err(e) => refused(e),
                },
            ),
            (SubmissionPhase::Validate, SubmissionEvent::Validated(Err(e))) => self.at(refused(e)),
            (SubmissionPhase::Validate, SubmissionEvent::Validated(Ok(admitted))) => Submission {
                admitted: Some(admitted),
                phase: if admitted.replaces is Some && !(self.transaction.tx_type is Frame) {
                    SubmissionPhase::Remove(admitted.replaces->0)
                } else {
                    self.insertion()
                },
                ..self
            },
            (SubmissionPhase::Remove(_), SubmissionEvent::Removed(r)) => self.at(
                match r {
                    Ok(()) => self.insertion(),
                    Err(why) => refused(MempoolError::StoreError(why)),
                },
            ),
            (SubmissionPhase::AddBundle, SubmissionEvent::BundleAdded(r)) => self.at(
                match r {
                    Ok(()) => SubmissionPhase::Insert,
                    Err(e) => refused(e),
                },
            ),
            (SubmissionPhase::Insert, SubmissionEvent::Inserted(r)) => self.at(
                match r {
                    Ok(()) => SubmissionPhase::Done(Ok(self.transaction.hash)),
                    Err(e) => if self.bundle_len is Some {
                        SubmissionPhase::RemoveBundle(e)
                    } else {
                        refused(e)
                    },
                },
            ),
            (SubmissionPhase::RemoveBundle(e), SubmissionEvent::BundleRemoved) => self.at(
                refused(e),
            ),
            _ => self,
        }
    }

    /// A transaction that arrives, with the size of its blobs where they came with it.
    pub fn start(
        transaction: Transaction,
        bundle_len: Option<usize>,
        limits: &AdmissionLimits,
    ) -> (s: Submission)
        ensures
            s == (Submission {
                phase: first_phase(transaction, bundle_len, *limits),
                transaction,
                bundle_len,
                admitted: None,
            }),
    {
        let phase = if bundle_len.is_some() {
            SubmissionPhase::LookUp
        } else if transaction.tx_type == TxType::EIP4844 {
            SubmissionPhase::Done(Err(MempoolError::BlobTxNoBlobsBundle))
        } else if transaction.encoded_len > limits.max_tx_size {
            SubmissionPhase::Done(
                Err(
                    MempoolError::TxSizeExceeded {
                        actual: transaction.encoded_len,
                        limit: limits.max_tx_size,
                    },
                ),
            )
        } else {
            SubmissionPhase::LookUp
        };
        Submission { phase, transaction, bundle_len, admitted: None }
    }

    /// Takes an event in. One that does not belong to what was to be done changes nothing.
    pub fn step(self, event: SubmissionEvent, limits: &AdmissionLimits) -> (next: Submission)
        requires
            self.bundle_len is Some ==> self.transaction.encoded_len + self.bundle_len->0
                <= usize::MAX,
        ensures
            next == self.after(event, *limits),
    {
        let Submission { phase, transaction, bundle_len, admitted } = self;
        let insertion = if bundle_len.is_some() {
            SubmissionPhase::AddBundle
        } else {
            SubmissionPhase::Insert
        };
        match (phase, event) {
            (SubmissionPhase::LookUp, SubmissionEvent::LookedUp(Err(why))) => {
                let phase = SubmissionPhase::Done(Err(MempoolError::StoreError(why)));
                Submission { phase, transaction, bundle_len, admitted }
            },
            (SubmissionPhase::LookUp, SubmissionEvent::LookedUp(Ok(known))) => {
                let phase = if known {
                    SubmissionPhase::Done(Ok(transaction.hash))
                } else {
                    match bundle_len {
                        None => SubmissionPhase::RecoverSender,
                        Some(len) => {
                            let wrapper_len: usize = transaction.encoded_len + len;
                            if wrapper_len > limits.max_blob_tx_size {
                                SubmissionPhase::Done(
                                    Err(
                                        MempoolError::TxSizeExceeded {
                                            actual: wrapper_len,
                                            limit: limits.max_blob_tx_size,
                                        },
                                    ),
                                )
                            } else {
                                SubmissionPhase::ValidateBundle
                            }
                        },
                    }
                };
                Submission { phase, transaction, bundle_len, admitted }
            },
            (SubmissionPhase::ValidateBundle, SubmissionEvent::BundleValidated(r)) => {
                let phase = match r {
                    Ok(()) => SubmissionPhase::RecoverSender,
                    Err(e) => SubmissionPhase::Done(Err(e)),
                };
                Submission { phase, transaction, bundle_len, admitted }
            },
            (SubmissionPhase::RecoverSender, SubmissionEvent::SenderRecovered(r)) => {
                let phase = match r {
                    Ok(()) => SubmissionPhase::Validate,
                    Err(e) => SubmissionPhase::Done(Err(e)),
                };
                Submission { phase, transaction, bundle_len, admitted }
            },
            (SubmissionPhase::Validate, SubmissionEvent::Validated(Err(e))) => {
                Submission {
                    phase: SubmissionPhase::Done(Err(e)),
                    transaction,
                    bundle_len,
                    admitted,
                }
            },
            (SubmissionPhase::Validate, SubmissionEvent::Validated(Ok(came_to))) => {
                let phase = match came_to.replaces {
                    Some(hash) => if transaction.tx_type != TxType::Frame {
                        SubmissionPhase::Remove(hash)
                    } else {
                        insertion
                    },
                    None => insertion,
                };
                Submission { phase, transaction, bundle_len, admitted: Some(came_to) }
            },
            (SubmissionPhase::Remove(_), SubmissionEvent::Removed(r)) => {
                let phase = match r {
                    Ok(()) => insertion,
                    Err(why) => SubmissionPhase::Done(Err(MempoolError::StoreError(why))),
                };
                Submission { phase, transaction, bundle_len, admitted }
            },
            (SubmissionPhase::AddBundle, SubmissionEvent::BundleAdded(r)) => {
                let phase = match r {
                    Ok(()) => SubmissionPhase::Insert,
                    Err(e) => SubmissionPhase::Done(Err(e)),
                };
                Submission { phase, transaction, bundle_len, admitted }
            },
            (SubmissionPhase::Insert, SubmissionEvent::Inserted(r)) => {
                let phase = match r {
                    Ok(()) => SubmissionPhase::Done(Ok(transaction.hash)),
                    Err(e) => if bundle_len.is_some() {
                        SubmissionPhase::RemoveBundle(e)
                    } else {
                        SubmissionPhase::Done(Err(e))
                    },
                };
                Submission { phase, transaction, bundle_len, admitted }
            },
            (SubmissionPhase::RemoveBundle(e), SubmissionEvent::BundleRemoved) => {
                Submission {
                    phase: SubmissionPhase::Done(Err(e)),
                    transaction,
                    bundle_len,
                    admitted,
                }
            },
            (phase, _) => Submission { phase, transaction, bundle_len, admitted },
        }
    }
}

/// The transaction that a frame transaction replaces stays until the new one is in: it is
/// never removed beforehand.
pub proof fn law_frame_transaction_removes_nothing_beforehand(
    submission: Submission,
    event: SubmissionEvent,
    limits: AdmissionLimits,
)
    requires
        submission.transaction.tx_type is Frame,
        !(submission.phase is Remove),
    ensures
        !(submission.after(event, limits).phase is Remove),
        submission.after(event, limits).transaction == submission.transaction,
{
}

/// Blobs whose transaction could not be added are removed again before the submission
/// ends.
pub proof fn law_blobs_are_not_left_behind(
    submission: Submission,
    event: SubmissionEvent,
    limits: AdmissionLimits,
)
    requires
        submission.bundle_len is Some,
        submission.phase is Insert,
    ensures
        submission.after(event, limits).phase matches SubmissionPhase::Done(r) ==> r == Ok::<
            H256,
            MempoolError,
        >(submission.transaction.hash),
        event matches SubmissionEvent::Inserted(Err(e)) ==> submission.after(event, limits).phase
            == SubmissionPhase::RemoveBundle(e),
{
}

/// The hashes of the transactions of a block, to be removed from the mempool.
pub fn block_transaction_hashes(block: &Block) -> (hashes: Vec<H256>)
    ensures
        hashes@ == Seq::new(
            block.body.transactions@.len(),
            |i: int| block.body.transactions@[i].hash,
        ),
{
    let txs = &block.body.transactions;
    let mut hashes: Vec<H256> = Vec::new();
    let mut i: usize = 0;
    while i < txs.len()
        invariant
            i <= txs@.len(),
            hashes@.len() == i,
            forall|j: int| 0 <= j < i ==> (#[trigger] hashes@[j]) == txs@[j].hash,
        decreases txs@.len() - i,
    {
        hashes.push(txs[i].hash);
        i += 1;
    }
    assert(hashes@ =~= Seq::new(txs@.len(), |i: int| txs@[i].hash));
    hashes
}

/// The nonces of senders at a block, as far as they have been read.
pub struct NonceCache {
    pub nonces: Table<Address, u64>,
}

impl NonceCache {
    pub fn new() -> (c: NonceCache)
        ensures
            c.nonces@ == Map::<Address, u64>::empty(),
    {
        NonceCache { nonces: Table::new() }
    }

    /// The nonce of a sender, where it was read.
    pub fn known(&self, sender: Address) -> (nonce: Option<u64>)
        ensures
            nonce == if self.nonces@.contains_key(sender) {
                Some(self.nonces@[sender])
            } else {
                None
            },
    {
        match self.nonces.get(sender) {
            Some(nonce) => Some(*nonce),
            None => None,
        }
    }

    /// Takes in what the state holds of a sender. One that is not there has nonce zero.
    pub fn learn(&mut self, sender: Address, nonce: Option<u64>)
        ensures
            final(self).nonces@ == old(self).nonces@.insert(
                sender,
                match nonce {
                    Some(n) => n,
                    None => 0,
                },
            ),
    {
        let n: u64 = match nonce {
            Some(n) => n,
            None => 0,
        };
        self.nonces.insert(sender, n);
    }
}

/// Whether a transaction that waits has been overtaken by its sender's nonce.
pub fn is_stale(tx_nonce: u64, state_nonce: u64) -> (b: bool)
    ensures
        b == (tx_nonce < state_nonce),
{
    tx_nonce < state_nonce
}

/// What a frame transaction that waits is held to once a block was added.
pub struct RevalidationFacts {
    /// Its validation prefix still has the right shape.
    pub prefix_valid: bool,
    /// The state after the block can be read.
    pub state_open: bool,
    /// Its prefix was run on that state and passed.
    pub passed: bool,
    /// The paymaster's balance, where it could be read.
    pub balance: Option<Option<U256>>,
    /// What is set aside for all that the paymaster stands behind.
    pub reserved: Result<U256, String>,
}

/// What becomes of a frame transaction that waits.
pub enum FrameFate {
    Keep,
    Evict,
    /// The mempool could not be read.
    Fail(String),
}

/// A paymaster's balance does not cover what is set aside.
pub open spec fn overdrawn(balance: nat, reserved: int) -> bool {
    balance < reserved
}

/// What becomes of a frame transaction that waits, once a block with this timestamp was
/// added.
pub open spec fn fate(tx: Transaction, timestamp: u64, facts: RevalidationFacts) -> FrameFate {
    if !(tx.tx_type is Frame) {
        FrameFate::Keep
    } else if tx.expiry_deadline is Some && tx.expiry_deadline->0 < timestamp {
        FrameFate::Evict
    } else if !facts.prefix_valid {
        FrameFate::Evict
    } else if !facts.state_open {
        FrameFate::Keep
    } else if !facts.passed {
        FrameFate::Evict
    } else {
        match (facts.balance, facts.reserved) {
            (None, _) => FrameFate::Keep,
            (Some(_), Err(why)) => FrameFate::Fail(why),
            (Some(balance), Ok(reserved)) => if overdrawn(
                paymaster_funds(balance)@,
                reserved@ as int,
            ) {
                FrameFate::Evict
            } else {
                FrameFate::Keep
            },
        }
    }
}

/// What becomes of a frame transaction that waits, once a block was added: it goes when it
/// has expired, when its prefix no longer passes, or when its paymaster can no longer
/// cover all that it stands behind.
pub fn revalidate_frame_tx(tx: &Transaction, timestamp: u64, facts: RevalidationFacts) -> (f:
    FrameFate)
    ensures
        f == fate(*tx, timestamp, facts),
{
    if tx.tx_type != TxType::Frame {
        return FrameFate::Keep;
    }
    if let Some(deadline) = tx.expiry_deadline {
        if deadline < timestamp {
            return FrameFate::Evict;
        }
    }
    if !facts.prefix_valid {
        return FrameFate::Evict;
    }
    if !facts.state_open {
        return FrameFate::Keep;
    }
    if !facts.passed {
        return FrameFate::Evict;
    }
    let balance = match facts.balance {
        None => return FrameFate::Keep,
        Some(Some(balance)) => balance,
        Some(None) => U256::zero(),
    };
    match facts.reserved {
        Err(why) => FrameFate::Fail(why),
        Ok(reserved) => {
            if balance.less_than(&reserved) {
                FrameFate::Evict
            } else {
                FrameFate::Keep
            }
        },
    }
}

/// What stays set aside of a paymaster's balance after its transactions were looked at
/// one after another: one that goes takes its cost along.
pub open spec fn swept(balance: nat, reserved: int, costs: Seq<nat>) -> int
    decreases costs.len(),
{
    if costs.len() == 0 {
        reserved
    } else if overdrawn(balance, reserved) {
        swept(balance, reserved - costs[0], costs.drop_first())
    } else {
        swept(balance, reserved, costs.drop_first())
    }
}

/// What transactions cost together.
pub open spec fn sum(costs: Seq<nat>) -> nat
    decreases costs.len(),
{
    if costs.len() == 0 {
        0
    } else {
        costs[0] + sum(costs.drop_first())
    }
}

proof fn lemma_swept(balance: nat, reserved: int, costs: Seq<nat>)
    ensures
        swept(balance, reserved, costs) <= balance || swept(balance, reserved, costs) == reserved
            - sum(costs),
    decreases costs.len(),
{
    if costs.len() > 0 {
        if balance < reserved {
            lemma_swept(balance, reserved - costs[0], costs.drop_first());
        } else {
            lemma_swept(balance, reserved, costs.drop_first());
            lemma_sweep_is_settled(balance, reserved, costs.drop_first());
        }
    }
}

proof fn lemma_sweep_is_settled(balance: nat, reserved: int, costs: Seq<nat>)
    requires
        reserved <= balance,
    ensures
        swept(balance, reserved, costs) == reserved,
    decreases costs.len(),
{
    if costs.len() > 0 {
        lemma_sweep_is_settled(balance, reserved, costs.drop_first());
    }
}

/// After all transactions behind which a paymaster stands were looked at, its balance
/// covers what stays set aside.
pub proof fn law_sweep_leaves_paymaster_covered(balance: nat, costs: Seq<nat>)
    ensures
        swept(balance, sum(costs) as int, costs) <= balance,
{
    lemma_swept(balance, sum(costs) as int, costs);
}

/// How a transaction is handed to a peer.
#[derive(Copy, Clone, PartialEq, Eq, Structural, Debug)]
pub enum PeerForm {
    /// As it is.
    Plain,
    /// With its blobs, and the version of their wrapper where there is one.
    WithBlobs { wrapper_version: Option<u8> },
}

/// Why a transaction is not handed to a peer.
#[derive(Copy, Clone, PartialEq, Eq, Structural, Debug)]
pub enum PeerError {
    NotFound(H256),
    MissingBundle(H256),
    PrivilegedUnsupported,
}

impl PeerError {
    pub open spec fn text(self) -> Seq<char> {
        match self {
            PeerError::NotFound(hash) => "Hash "@ + short_form(hash.bytes())
                + " not found in the mempool"@,
            PeerError::MissingBundle(hash) => "Blob transaction present without its bundle: hash "@
                + short_form(hash.bytes()),
            PeerError::PrivilegedUnsupported => "Privileged Transactions are not supported in P2P"@,
        }
    }

    /// The error in words.
    pub fn to_text(&self) -> (text: String)
        ensures
            text@ == self.text(),
    {
        match self {
            PeerError::NotFound(hash) => {
                let mut text = "Hash ".to_owned();
                text.append(hash.short_text().as_str());
                text.append(" not found in the mempool");
                text
            },
            PeerError::MissingBundle(hash) => {
                let mut text = "Blob transaction present without its bundle: hash ".to_owned();
                text.append(hash.short_text().as_str());
                text
            },
            PeerError::PrivilegedUnsupported => {
                "Privileged Transactions are not supported in P2P".to_owned()
            },
        }
    }
}

/// How a transaction of the mempool is handed to a peer that asks for it by its hash,
/// `bundle_version` being the version of its blobs.
pub fn p2p_form(hash: H256, tx: Option<&Transaction>, bundle_version: Option<u8>) -> (r: Result<
    PeerForm,
    PeerError,
>)
    ensures
        r == match tx {
            None => Err::<PeerForm, PeerError>(PeerError::NotFound(hash)),
            Some(tx) => match tx.tx_type {
                TxType::Privileged => Err(PeerError::PrivilegedUnsupported),
                TxType::EIP4844 => match bundle_version {
                    None => Err(PeerError::MissingBundle(hash)),
                    Some(version) => Ok(
                        PeerForm::WithBlobs {
                            wrapper_version: if version != 0 {
                                Some(version)
                            } else {
                                None
                            },
                        },
                    ),
                },
                _ => Ok(PeerForm::Plain),
            },
        },
{
    match tx {
        None => Err(PeerError::NotFound(hash)),
        Some(tx) => match tx.tx_type {
            TxType::Privileged => Err(PeerError::PrivilegedUnsupported),
            TxType::EIP4844 => match bundle_version {
                None => Err(PeerError::MissingBundle(hash)),
                Some(version) => {
                    let wrapper_version: Option<u8> = if version != 0 {
                        Some(version)
                    } else {
                        None
                    };
                    Ok(PeerForm::WithBlobs { wrapper_version })
                },
            },
            _ => Ok(PeerForm::Plain),
        },
    }
}

} // verus!
