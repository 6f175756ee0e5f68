//! The payloads that were asked for, and when a payload is built anew.

use crate::chain_error::ChainError;
use vstd::prelude::*;

verus! {

/// How many payloads are kept.
pub const MAX_PAYLOADS: usize = 10;

/// The payloads that were asked for, the oldest first, each under its identifier.
pub struct PayloadSlots<P> {
    pub slots: Vec<(u64, P)>,
}

impl<P> View for PayloadSlots<P> {
    type V = Seq<(u64, P)>;

    open spec fn view(&self) -> Seq<(u64, P)> {
        self.slots@
    }
}

/// The slots with one more payload. The oldest makes room where there are too many.
pub open spec fn with_payload<P>(slots: Seq<(u64, P)>, id: u64, payload: P) -> Seq<(u64, P)> {
    if slots.len() >= MAX_PAYLOADS {
        slots.drop_first().push((id, payload))
    } else {
        slots.push((id, payload))
    }
}

/// The first slot with the given identifier.
pub open spec fn first_with_id<P>(slots: Seq<(u64, P)>, id: u64, at: int) -> bool {
    &&& 0 <= at < slots.len()
    &&& slots[at].0 == id
    &&& forall|i: int| 0 <= i < at ==> (#[trigger] slots[i]).0 != id
}

impl<P> PayloadSlots<P> {
    pub fn new() -> (s: PayloadSlots<P>)
        ensures
            s@ == Seq::<(u64, P)>::empty(),
    {
        PayloadSlots { slots: Vec::new() }
    }

    /// Keeps a payload. The oldest makes room where there are too many.
    pub fn add_payload(&mut self, id: u64, payload: P)
        ensures
            final(self)@ == with_payload(old(self)@, id, payload),
            old(self)@.len() <= MAX_PAYLOADS ==> final(self)@.len() <= MAX_PAYLOADS,
    {
        if self.slots.len() >= MAX_PAYLOADS {
            let _ = self.slots.remove(0);
            assert(self@ =~= old(self)@.drop_first());
        }
        self.slots.push((id, payload));
    }

    /// Where the payload with the given identifier is kept.
    pub fn position(&self, id: u64) -> (r: Result<usize, ChainError>)
        ensures
            match r {
                Ok(at) => first_with_id(self@, id, at as int),
                Err(e) => e == ChainError::UnknownPayload && forall|i: int|
                    0 <= i < self@.len() ==> (#[trigger] self@[i]).0 != id,
            },
    {
        let mut i: usize = 0;
        while i < self.slots.len()
            invariant
                i <= self@.len(),
                forall|j: int| 0 <= j < i ==> (#[trigger] self@[j]).0 != id,
            decreases self@.len() - i,
        {
            if self.slots[i].0 == id {
                return Ok(i);
            }
            i += 1;
        }
        Err(ChainError::UnknownPayload)
    }

    /// Takes the payload at a position out, to be finished.
    pub fn take(&mut self, at: usize) -> (taken: (u64, P))
        requires
            at < old(self)@.len(),
        ensures
            taken == old(self)@[at as int],
            final(self)@ == old(self)@.remove(at as int),
    {
        self.slots.remove(at)
    }

    /// Puts a finished payload back to where it was.
    pub fn put_back(&mut self, at: usize, id: u64, payload: P)
        requires
            at <= old(self)@.len(),
        ensures
            final(self)@ == old(self)@.insert(at as int, (id, payload)),
    {
        self.slots.insert(at, (id, payload));
    }
}

/// A payload that was asked for and finished is found again under its identifier, at
/// the same place, and no other payload has moved.
pub proof fn law_finished_payload_stays_in_place<P>(
    slots: Seq<(u64, P)>,
    id: u64,
    at: int,
    finished: P,
)
    requires
        first_with_id(slots, id, at),
    ensures
        ({
            let after = slots.remove(at).insert(at, (id, finished));
            &&& after == slots.update(at, (id, finished))
            &&& first_with_id(after, id, at)
        }),
{
    let after = slots.remove(at).insert(at, (id, finished));
    assert(after =~= slots.update(at, (id, finished)));
}

/// How long a payload is built anew, in milliseconds: one slot.
pub const SLOT_MILLIS: u64 = 12000;

/// The building of a payload, over and over, until its slot ends or it is asked for.
pub struct PayloadLoop {
    /// How many transactions the pool had seen when the payload at hand was begun.
    pub last_built_seq: u64,
}

/// What became of a rebuild.
#[derive(Copy, Clone, PartialEq, Eq, Structural, Debug)]
pub enum Rebuild {
    /// It was finished.
    Built,
    /// It broke off.
    Broken,
    /// The payload was asked for before it was finished.
    Cancelled,
}

impl PayloadLoop {
    /// Begins with a payload that was built from a pool that had seen `seq`
    /// transactions.
    pub fn start(seq: u64) -> (l: PayloadLoop)
        ensures
            l.last_built_seq == seq,
    {
        PayloadLoop { last_built_seq: seq }
    }

    /// Whether to wait for another rebuild.
    pub fn goes_on(&self, elapsed_millis: u64, cancelled: bool) -> (b: bool)
        ensures
            b == (elapsed_millis < SLOT_MILLIS && !cancelled),
    {
        elapsed_millis < SLOT_MILLIS && !cancelled
    }

    /// How long to wait at most.
    pub fn remaining(&self, elapsed_millis: u64) -> (millis: u64)
        ensures
            millis == if elapsed_millis < SLOT_MILLIS {
                SLOT_MILLIS - elapsed_millis
            } else {
                0
            },
    {
        SLOT_MILLIS.saturating_sub(elapsed_millis)
    }

    /// Enters what became of a rebuild that was begun when the pool had seen
    /// `seq_before` transactions. Says whether its result takes the place of the one at
    /// hand.
    pub fn rebuilt(&mut self, outcome: Rebuild, seq_before: u64) -> (keep: bool)
        ensures
            keep == (outcome == Rebuild::Built),
            final(self).last_built_seq == if keep {
                seq_before
            } else {
                old(self).last_built_seq
            },
    {
        if outcome == Rebuild::Built {
            self.last_built_seq = seq_before;
            true
        } else {
            false
        }
    }

    /// Whether the pool has seen a transaction that the payload at hand could not take:
    /// one more build is owed then.
    pub fn owes_final_build(&self, seq: u64) -> (b: bool)
        ensures
            b == (seq > self.last_built_seq),
    {
        seq > self.last_built_seq
    }
}

/// A part of the building of a payload.
#[derive(Copy, Clone, PartialEq, Eq, Structural, Debug)]
pub enum BuildPhase {
    /// The system contracts are called.
    SystemOperations,
    /// The transactions of the pool are tried.
    FillFromPool,
    /// The given transactions are executed, all of them, in their order.
    FillExplicit,
    /// What follows the last transaction is filed under its own index.
    PostTransactions,
    /// The requests are extracted.
    ExtractRequests,
    Withdrawals,
    Finalize,
}

/// The parts of the building of a payload, in their order. Requests come before
/// withdrawals.
pub open spec fn phases(l1: bool, explicit: bool, amsterdam: bool, prague: bool) -> Seq<
    BuildPhase,
> {
    (if l1 {
        seq![BuildPhase::SystemOperations]
    } else {
        Seq::empty()
    }) + seq![
        if explicit {
            BuildPhase::FillExplicit
        } else {
            BuildPhase::FillFromPool
        },
    ] + (if amsterdam {
        seq![BuildPhase::PostTransactions]
    } else {
        Seq::empty()
    }) + (if prague {
        seq![BuildPhase::ExtractRequests]
    } else {
        Seq::empty()
    }) + seq![BuildPhase::Withdrawals, BuildPhase::Finalize]
}

/// The parts of the building of a payload, in their order.
pub fn build_phases(l1: bool, explicit: bool, amsterdam: bool, prague: bool) -> (list: Vec<
    BuildPhase,
>)
    ensures
        list@ == phases(l1, explicit, amsterdam, prague),
{
    let mut list: Vec<BuildPhase> = Vec::new();
    if l1 {
        list.push(BuildPhase::SystemOperations);
    }
    if explicit {
        list.push(BuildPhase::FillExplicit);
    } else {
        list.push(BuildPhase::FillFromPool);
    }
    if amsterdam {
        list.push(BuildPhase::PostTransactions);
    }
    if prague {
        list.push(BuildPhase::ExtractRequests);
    }
    list.push(BuildPhase::Withdrawals);
    list.push(BuildPhase::Finalize);
    assert(list@ =~= phases(l1, explicit, amsterdam, prague));
    list
}

} // verus!
