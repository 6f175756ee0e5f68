//! What becomes of a transaction that is submitted, and of those that wait.

use crate::block::Block;
use crate::blockchain::admission::{AdmissionLimits, Admitted, MempoolError};
use crate::blockchain::pool::{
    block_transaction_hashes, cap_for, first_phase, is_stale, p2p_form, revalidate_frame_tx,
    FrameFate, PeerError, PeerForm, RevalidationFacts, Submission, SubmissionEvent,
    SubmissionPhase,
};
use crate::transaction::Transaction;
use crate::word::H256;
use vstd::prelude::*;

verus! {

/// A transaction that comes with its blobs is looked up first. One without is refused
/// where it should have some, and where it is larger than a transaction may be, and looked
/// up otherwise.
pub proof fn law_submission_starts(
    tx: Transaction,
    bundle_len: Option<usize>,
    limits: AdmissionLimits,
)
    ensures
        ({
            let phase = first_phase(tx, bundle_len, limits);
            &&& phase is LookUp <==> bundle_len is Some || (!(tx.tx_type is EIP4844)
                && tx.encoded_len <= limits.max_tx_size)
            &&& bundle_len is None && tx.tx_type is EIP4844 ==> phase == SubmissionPhase::Done(
                Err(MempoolError::BlobTxNoBlobsBundle),
            )
            &&& bundle_len is None && !(tx.tx_type is EIP4844) && tx.encoded_len
                > limits.max_tx_size ==> phase == SubmissionPhase::Done(
                Err(
                    MempoolError::TxSizeExceeded {
                        actual: tx.encoded_len,
                        limit: limits.max_tx_size,
                    },
                ),
            )
        }),
{
}

/// The steps of a submission follow each other. A transaction that is known already is
/// answered with its hash. Blobs are checked, where they came and are not too large, then
/// the sender is recovered and the rules are applied. What is replaced is removed first,
/// unless a frame transaction replaces it; then the blobs are added and the transaction
/// is, and its hash is the answer. Every failure on the way is the answer, once blobs that
/// were added are removed again.
pub proof fn law_steps_of_a_submission(
    submission: Submission,
    event: SubmissionEvent,
    limits: AdmissionLimits,
)
    requires
        submission.bundle_len is Some ==> submission.transaction.encoded_len
            + submission.bundle_len->0 <= usize::MAX,
    ensures
        ({
            let next = submission.after(event, limits);
            let tx = submission.transaction;
            let size = tx.encoded_len + submission.bundle_len->0;
            let bundled = submission.bundle_len is Some;
            let adding = if bundled {
                SubmissionPhase::AddBundle
            } else {
                SubmissionPhase::Insert
            };
            &&& next.transaction == tx
            &&& next.bundle_len == submission.bundle_len
            &&& match (submission.phase, event) {
                (SubmissionPhase::LookUp, SubmissionEvent::LookedUp(r)) => {
                    &&& r matches Err(why) ==> next.phase == SubmissionPhase::Done(
                        Err(MempoolError::StoreError(why)),
                    )
                    &&& r == Ok::<bool, String>(true) ==> next.phase == SubmissionPhase::Done(
                        Ok(tx.hash),
                    )
                    &&& r == Ok::<bool, String>(false) && !bundled ==> next.phase
                        is RecoverSender
                    &&& r == Ok::<bool, String>(false) && bundled && size
                        <= limits.max_blob_tx_size ==> next.phase is ValidateBundle
                    &&& r == Ok::<bool, String>(false) && bundled && size
                        > limits.max_blob_tx_size ==> next.phase == SubmissionPhase::Done(
                        Err(
                            MempoolError::TxSizeExceeded {
                                actual: size as usize,
                                limit: limits.max_blob_tx_size,
                            },
                        ),
                    )
                },
                (SubmissionPhase::ValidateBundle, SubmissionEvent::BundleValidated(r)) => {
                    &&& r is Ok ==> next.phase is RecoverSender
                    &&& r matches Err(e) ==> next.phase == SubmissionPhase::Done(Err(e))
                },
                (SubmissionPhase::RecoverSender, SubmissionEvent::SenderRecovered(r)) => {
                    &&& r is Ok ==> next.phase is Validate
                    &&& r matches Err(e) ==> next.phase == SubmissionPhase::Done(Err(e))
                },
                (SubmissionPhase::Validate, SubmissionEvent::Validated(r)) => {
                    &&& r matches Err(e) ==> next.phase == SubmissionPhase::Done(Err(e))
                    &&& r matches Ok(admitted) ==> next.admitted == Some(admitted) && next.phase
                        == if admitted.replaces is Some && !(tx.tx_type is Frame) {
                        SubmissionPhase::Remove(admitted.replaces->0)
                    } else {
                        adding
                    }
                },
                (SubmissionPhase::Remove(_), SubmissionEvent::Removed(r)) => {
                    &&& r is Ok ==> next.phase == adding && next.admitted == submission.admitted
                    &&& r matches Err(why) ==> next.phase == SubmissionPhase::Done(
                        Err(MempoolError::StoreError(why)),
                    )
                },
                (SubmissionPhase::AddBundle, SubmissionEvent::BundleAdded(r)) => {
                    &&& r is Ok ==> next.phase is Insert && next.admitted == submission.admitted
                    &&& r matches Err(e) ==> next.phase == SubmissionPhase::Done(Err(e))
                },
                (SubmissionPhase::Insert, SubmissionEvent::Inserted(r)) => {
                    &&& r is Ok ==> next.phase == SubmissionPhase::Done(Ok(tx.hash))
                    &&& r is Err && bundled ==> next.phase == SubmissionPhase::RemoveBundle(
                        r->Err_0,
                    )
                    &&& r is Err && !bundled ==> next.phase == SubmissionPhase::Done(
                        Err(r->Err_0),
                    )
                },
                (SubmissionPhase::RemoveBundle(e), SubmissionEvent::BundleRemoved) => next.phase
                    == SubmissionPhase::Done(Err(e)),
                _ => next == submission,
            }
        }),
{
}

/// A sender whose nonce is known may have only so many transactions waiting, unless a new
/// one replaces another.
pub proof fn law_waiting_transactions_are_capped(admitted: Admitted, max: usize)
    ensures
        cap_for(admitted, max) is Some <==> admitted.replaces is None
            && admitted.account_nonce is Some,
        cap_for(admitted, max) matches Some(cap) ==> cap.max == max && Some(cap.account_nonce)
            == admitted.account_nonce,
{
}

/// The transactions of a block leave the mempool: their hashes are told in their order.
/// One that waits is stale exactly where its nonce is below that of its sender.
pub proof fn law_block_empties_the_pool(
    block: Block,
    hashes: Vec<H256>,
    tx_nonce: u64,
    state_nonce: u64,
    stale: bool,
)
    requires
        call_ensures(block_transaction_hashes, (&block,), hashes),
        call_ensures(is_stale, (tx_nonce, state_nonce), stale),
    ensures
        hashes@.len() == block.body.transactions@.len(),
        forall|i: int|
            0 <= i < hashes@.len() ==> #[trigger] hashes@[i] == block.body.transactions@[i].hash,
        stale <==> state_nonce > tx_nonce,
{
}

/// A frame transaction that waits goes exactly where it has expired, its validation prefix
/// has the wrong shape, or, where the state can be read, the prefix no longer passes or
/// the paymaster's balance, where it could be read, is below what is set aside. No other
/// transaction goes.
pub proof fn law_frame_transactions_are_let_go(
    tx: Transaction,
    timestamp: u64,
    facts: RevalidationFacts,
    fate: FrameFate,
)
    requires
        call_ensures(revalidate_frame_tx, (&tx, timestamp, facts), fate),
    ensures
        ({
            let expired = tx.expiry_deadline is Some && tx.expiry_deadline->0 < timestamp;
            let has = match facts.balance {
                Some(Some(balance)) => balance@,
                _ => 0,
            };
            let late = facts.state_open && facts.passed && facts.balance is Some;
            let judged = tx.tx_type is Frame && !expired && facts.prefix_valid && late;
            &&& fate is Evict <==> tx.tx_type is Frame && (expired || !facts.prefix_valid || (
            facts.state_open && !facts.passed) || (late && facts.reserved is Ok
                && facts.reserved->Ok_0@ > has))
            &&& fate is Fail <==> judged && facts.reserved is Err
            &&& fate is Fail ==> fate == FrameFate::Fail(facts.reserved->Err_0)
        }),
{
}

/// A peer is given a transaction as it is, one with blobs only together with them and
/// under the version of their wrapper, which is left out where it is zero. Privileged
/// transactions are not given.
pub proof fn law_form_for_a_peer(
    hash: H256,
    tx: Transaction,
    version: Option<u8>,
    r: Result<PeerForm, PeerError>,
    none: Result<PeerForm, PeerError>,
)
    requires
        call_ensures(p2p_form, (hash, Some(&tx), version), r),
        call_ensures(p2p_form, (hash, None, version), none),
    ensures
        none == Err::<PeerForm, PeerError>(PeerError::NotFound(hash)),
        tx.tx_type is Privileged ==> r == Err::<PeerForm, PeerError>(
            PeerError::PrivilegedUnsupported,
        ),
        tx.tx_type is EIP4844 && version is None ==> r == Err::<PeerForm, PeerError>(
            PeerError::MissingBundle(hash),
        ),
        tx.tx_type is EIP4844 && version is Some ==> (r matches Ok(
            PeerForm::WithBlobs { wrapper_version },
        ) && (wrapper_version is None <==> version->0 == 0) && (wrapper_version is Some
            ==> wrapper_version == version)),
        !(tx.tx_type is EIP4844) && !(tx.tx_type is Privileged) ==> r == Ok::<
            PeerForm,
            PeerError,
        >(PeerForm::Plain),
{
}

} // verus!
