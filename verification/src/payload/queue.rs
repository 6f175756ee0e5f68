//! The transactions that wait for a block, the most rewarding first, those of one
//! sender in the order of their nonces.

use crate::chain_error::{ChainError, InvalidBlockError};
use crate::table::{lemma_walk, lemma_walk_end, Table};
use crate::transaction::{gas_tip, MempoolTransaction, TxType};
use crate::word::{Address, U256};
use vstd::prelude::*;
use vstd::string::*;

verus! {

/// The next transaction of a sender, with what it earns per unit of gas.
#[derive(Copy, Clone, PartialEq, Eq, Structural, Debug)]
pub struct HeadTransaction {
    pub tx: MempoolTransaction,
    pub tip: U256,
}

impl HeadTransaction {
    pub open spec fn privileged(self) -> bool {
        self.tx.transaction.tx_type == TxType::Privileged
    }

    /// Whether `self` goes into a block before `other`: privileged transactions come
    /// first, by nonce, and of the others the one with the higher tip, or the earlier
    /// one of equal tips.
    pub open spec fn ahead_of(self, other: HeadTransaction) -> bool {
        if self.privileged() && other.privileged() {
            self.tx.transaction.nonce < other.tx.transaction.nonce
        } else if self.privileged() || other.privileged() {
            self.privileged()
        } else {
            self.tip@ > other.tip@ || (self.tip@ == other.tip@ && self.tx.time < other.tx.time)
        }
    }

    pub fn is_ahead_of(&self, other: &HeadTransaction) -> (b: bool)
        ensures
            b == self.ahead_of(*other),
    {
        let mine = self.tx.transaction.tx_type == TxType::Privileged;
        let theirs = other.tx.transaction.tx_type == TxType::Privileged;
        if mine && theirs {
            self.tx.transaction.nonce < other.tx.transaction.nonce
        } else if mine || theirs {
            mine
        } else {
            other.tip.less_than(&self.tip) || (!self.tip.less_than(&other.tip) && self.tx.time
                < other.tx.time)
        }
    }
}

/// No transaction is ahead of itself, and being ahead passes on. Two transactions of
/// which neither is ahead of the other stand alike to every third.
pub proof fn law_order_is_a_weak_order(a: HeadTransaction, b: HeadTransaction, c: HeadTransaction)
    ensures
        !a.ahead_of(a),
        a.ahead_of(b) ==> !b.ahead_of(a),
        a.ahead_of(b) && b.ahead_of(c) ==> a.ahead_of(c),
        !a.ahead_of(b) && !b.ahead_of(c) ==> !a.ahead_of(c),
{
}

/// No transaction stands behind one that it is ahead of.
pub open spec fn in_order(heads: Seq<HeadTransaction>) -> bool {
    forall|i: int, j: int|
        0 <= i < j < heads.len() ==> !(#[trigger] heads[j]).ahead_of(#[trigger] heads[i])
}

/// The transactions that wait for a block.
pub struct TransactionQueue {
    /// The next transaction of each sender, in order.
    pub heads: Vec<HeadTransaction>,
    /// The ones after it, by sender.
    pub txs: Table<Address, Vec<MempoolTransaction>>,
    pub base_fee: Option<u64>,
}

/// What a queue holds.
#[verifier::ext_equal]
pub struct QueueView {
    pub heads: Seq<HeadTransaction>,
    pub rest: Map<Address, Seq<MempoolTransaction>>,
    pub base_fee: Option<u64>,
}

/// What lists of transactions by sender hold.
pub open spec fn lists_view(txs: Map<Address, Vec<MempoolTransaction>>) -> Map<
    Address,
    Seq<MempoolTransaction>,
> {
    Map::new(|a: Address| txs.contains_key(a), |a: Address| txs[a]@)
}

impl View for TransactionQueue {
    type V = QueueView;

    open spec fn view(&self) -> QueueView {
        QueueView { heads: self.heads@, rest: lists_view(self.txs@), base_fee: self.base_fee }
    }
}

impl QueueView {
    /// The heads are in order, no two have the same sender, each has the tip that it
    /// earns, and every waiting transaction is listed under its sender.
    pub open spec fn wf(self) -> bool {
        &&& in_order(self.heads)
        &&& forall|i: int, j: int|
            0 <= i < j < self.heads.len() ==> (#[trigger] self.heads[i]).tx.sender != (
            #[trigger] self.heads[j]).tx.sender
        &&& forall|i: int|
            0 <= i < self.heads.len() ==> gas_tip(
                (#[trigger] self.heads[i]).tx.transaction,
                self.base_fee,
            ) == Some(self.heads[i].tip)
        &&& forall|a: Address, i: int|
            #![trigger self.rest[a][i]]
            self.rest.contains_key(a) && 0 <= i < self.rest[a].len() ==> self.rest[a][i].sender
                == a
    }

    /// The queue without the first transaction and all others of its sender.
    pub open spec fn popped(self) -> QueueView {
        if self.heads.len() == 0 {
            self
        } else {
            QueueView {
                heads: self.heads.drop_first(),
                rest: self.rest.remove(self.heads[0].tx.sender),
                ..self
            }
        }
    }

    /// The transaction that follows the first one.
    pub open spec fn follower(self) -> Option<MempoolTransaction> {
        let sender = self.heads[0].tx.sender;
        if self.rest.contains_key(sender) && self.rest[sender].len() > 0 {
            Some(self.rest[sender][0])
        } else {
            None
        }
    }

    /// Whether the transaction that follows the first, where there is one, earns a tip.
    pub open spec fn follower_pays(self) -> bool {
        self.follower() matches Some(tx) ==> gas_tip(tx.transaction, self.base_fee) is Some
    }

    /// Whether `after` is the queue without its first transaction, the next one of the same
    /// sender, where there is one, being put into its place in the order.
    pub open spec fn shifts_to(self, after: QueueView) -> bool {
        &&& after.wf()
        &&& after.base_fee == self.base_fee
        &&& after.rest == self.shifted_rest()
        &&& match self.follower() {
            None => after.heads == self.heads.drop_first(),
            Some(tx) => gas_tip(tx.transaction, self.base_fee) matches Some(tip) && exists|at: int|
                0 <= at <= self.heads.len() - 1 && after.heads
                    == #[trigger] self.heads.drop_first().insert(at, HeadTransaction { tx, tip }),
        }
    }

    /// The waiting transactions without the one that follows the first.
    pub open spec fn shifted_rest(self) -> Map<Address, Seq<MempoolTransaction>> {
        let sender = self.heads[0].tx.sender;
        if self.follower() is Some {
            self.rest.insert(sender, self.rest[sender].drop_first())
        } else {
            self.rest
        }
    }
}

/// The error for a transaction that no filter should have let through.
pub open spec fn filter_failed(e: ChainError) -> bool {
    e matches ChainError::InvalidBlock(InvalidBlockError::InvalidTransaction(why)) && why@
        == "Attempted to add an invalid transaction to the block. The transaction filter must have failed."@
}

fn filter_error() -> (e: ChainError)
    ensures
        filter_failed(e),
{
    ChainError::InvalidBlock(
        InvalidBlockError::InvalidTransaction(
            "Attempted to add an invalid transaction to the block. The transaction filter must have failed.".to_owned(),
        ),
    )
}

/// The first place at which a head can be put without breaking the order.
fn place(heads: &Vec<HeadTransaction>, head: &HeadTransaction) -> (at: usize)
    requires
        in_order(heads@),
    ensures
        at <= heads@.len(),
        in_order(heads@.insert(at as int, *head)),
{
    let mut low: usize = 0;
    let mut high: usize = heads.len();
    while low < high
        invariant
            low <= high <= heads@.len(),
            in_order(heads@),
            forall|i: int| 0 <= i < low ==> (#[trigger] heads@[i]).ahead_of(*head),
            forall|i: int| high <= i < heads@.len() ==> !(#[trigger] heads@[i]).ahead_of(*head),
        decreases high - low,
    {
        let mid: usize = low + (high - low) / 2;
        if heads[mid].is_ahead_of(head) {
            proof {
                assert forall|i: int| 0 <= i <= mid implies (#[trigger] heads@[i]).ahead_of(
                    *head,
                ) by {
                    if i < mid {
                        law_order_is_a_weak_order(*head, heads@[mid as int], heads@[i]);
                        law_order_is_a_weak_order(heads@[i], *head, heads@[mid as int]);
                        law_order_is_a_weak_order(heads@[mid as int], heads@[i], *head);
                    }
                }
            }
            low = mid + 1;
        } else {
            proof {
                assert forall|i: int| mid <= i < heads@.len() implies !(
                #[trigger] heads@[i]).ahead_of(*head) by {
                    if i > mid {
                        law_order_is_a_weak_order(heads@[i], heads@[mid as int], *head);
                    }
                }
            }
            high = mid;
        }
    }
    proof {
        let all = heads@.insert(low as int, *head);
        assert forall|i: int, j: int| 0 <= i < j < all.len() implies !(
        #[trigger] all[j]).ahead_of(#[trigger] all[i]) by {
            if j == low {
                assert(heads@[i].ahead_of(*head));
                law_order_is_a_weak_order(heads@[i], *head, *head);
            } else if i == low {
                assert(all[j] == heads@[j - 1]);
            } else {
                let a = if i < low { i } else { i - 1 };
                let b = if j < low { j } else { j - 1 };
                assert(all[i] == heads@[a]);
                assert(all[j] == heads@[b]);
            }
        }
    }
    low
}

/// The transactions of `txs` that a new queue starts with: the first of each sender.
pub open spec fn first_of_each(
    heads: Seq<HeadTransaction>,
    txs: Map<Address, Seq<MempoolTransaction>>,
    base_fee: Option<u64>,
) -> bool {
    &&& forall|i: int|
        0 <= i < heads.len() ==> {
            let tx = (#[trigger] heads[i]).tx;
            txs.contains_key(tx.sender) && tx == txs[tx.sender][0] && gas_tip(
                tx.transaction,
                base_fee,
            ) == Some(heads[i].tip)
        }
    &&& forall|a: Address| #[trigger]
        txs.contains_key(a) ==> exists|i: int|
            0 <= i < heads.len() && (#[trigger] heads[i]).tx.sender == a
}

/// The lists without the first transaction of each.
pub open spec fn tails(txs: Map<Address, Seq<MempoolTransaction>>) -> Map<
    Address,
    Seq<MempoolTransaction>,
> {
    Map::new(|a: Address| txs.contains_key(a), |a: Address| txs[a].drop_first())
}

/// Lists of transactions, none empty, each under their sender.
pub open spec fn by_sender(txs: Map<Address, Seq<MempoolTransaction>>) -> bool {
    forall|a: Address| #[trigger]
        txs.contains_key(a) ==> txs[a].len() > 0 && forall|i: int|
            0 <= i < txs[a].len() ==> (#[trigger] txs[a][i]).sender == a
}

impl TransactionQueue {
    /// A queue of transactions that are listed by sender in the order of their nonces.
    /// Fails where the fee cap of a first transaction does not cover the base fee.
    pub fn new(txs: Table<Address, Vec<MempoolTransaction>>, base_fee: Option<u64>) -> (r: Result<
        TransactionQueue,
        ChainError,
    >)
        requires
            by_sender(lists_view(txs@)),
        ensures
            r is Ok <==> forall|a: Address| #[trigger]
                txs@.contains_key(a) ==> gas_tip(txs@[a]@[0].transaction, base_fee) is Some,
            match r {
                Ok(queue) => {
                    &&& queue@.wf()
                    &&& first_of_each(queue@.heads, lists_view(txs@), base_fee)
                    &&& queue@.rest == tails(lists_view(txs@))
                    &&& queue@.base_fee == base_fee
                },
                Err(e) => filter_failed(e),
            },
    {
        let ghost lists = lists_view(txs@);
        let keys = txs.key_list();
        let mut queue = TransactionQueue { heads: Vec::new(), txs, base_fee };
        let mut i: usize = 0;
        while i < keys.len()
            invariant
                i <= keys@.len(),
                keys@.no_duplicates(),
                keys@.to_set() == lists.dom(),
                lists == lists_view(txs@),
                by_sender(lists),
                forall|j: int| 0 <= j < keys@.len() ==> lists.contains_key(#[trigger] keys@[j]),
                queue.base_fee == base_fee,
                queue@.rest.dom() =~= lists.dom(),
                forall|a: Address| #[trigger]
                    queue@.rest.contains_key(a) ==> queue@.rest[a] == if keys@.take(
                        i as int,
                    ).contains(a) {
                        lists[a].drop_first()
                    } else {
                        lists[a]
                    },
                in_order(queue@.heads),
                queue@.heads.len() == i,
                forall|j: int|
                    0 <= j < i ==> {
                        let tx = (#[trigger] queue@.heads[j]).tx;
                        keys@.take(i as int).contains(tx.sender) && tx == lists[tx.sender][0]
                            && gas_tip(tx.transaction, base_fee) == Some(queue@.heads[j].tip)
                    },
                forall|j: int, k: int|
                    0 <= j < k < i ==> (#[trigger] queue@.heads[j]).tx.sender != (
                    #[trigger] queue@.heads[k]).tx.sender,
                forall|a: Address| #[trigger]
                    keys@.take(i as int).contains(a) ==> (exists|j: int|
                        0 <= j < i && (#[trigger] queue@.heads[j]).tx.sender == a) && gas_tip(
                        lists[a][0].transaction,
                        base_fee,
                    ) is Some,
            decreases keys@.len() - i,
        {
            let sender = keys[i];
            let ghost at = i as int;
            let ghost before = queue@;
            proof {
                lemma_walk(keys@, at, at + 1);
                assert(lists.contains_key(keys@[at]));
                assert(before.rest.dom().contains(sender));
                assert(before.rest[sender] == lists[sender]);
            }
            let mut tx: Option<MempoolTransaction> = None;
            match queue.txs.get_mut(sender) {
                Some(list) => {
                    tx = Some(list.remove(0));
                },
                None => {},
            }
            match tx {
                Some(tx) => {
                    assert(tx == lists[sender][0]);
                    assert(queue@.rest[sender] =~= lists[sender].drop_first());
                    match tx.transaction.effective_gas_tip(base_fee) {
                        Some(tip) => {
                            let head = HeadTransaction { tx, tip };
                            let index: usize = place(&queue.heads, &head);
                            queue.heads.insert(index, head);
                            proof {
                                let heads = queue@.heads;
                                assert(heads[index as int] == head);
                                assert forall|j: int| 0 <= j < heads.len() implies (j == index
                                    || exists|k: int|
                                    0 <= k < before.heads.len() && #[trigger] before.heads[k]
                                        == #[trigger] heads[j]) by {
                                    if j < index {
                                        assert(before.heads[j] == heads[j]);
                                    } else if j > index {
                                        assert(before.heads[j - 1] == heads[j]);
                                    }
                                }
                                assert forall|a: Address| #[trigger]
                                    keys@.take(at + 1).contains(a) implies (exists|j: int|
                                    0 <= j < at + 1 && (#[trigger] heads[j]).tx.sender == a)
                                    && gas_tip(lists[a][0].transaction, base_fee) is Some by {
                                    if a == sender {
                                        assert(heads[index as int].tx.sender == a);
                                    } else {
                                        assert(keys@.take(at).contains(a));
                                        let k = choose|k: int|
                                            0 <= k < at && (
                                            #[trigger] before.heads[k]).tx.sender == a;
                                        if k < index {
                                            assert(heads[k] == before.heads[k]);
                                        } else {
                                            assert(heads[k + 1] == before.heads[k]);
                                        }
                                    }
                                }
                            }
                        },
                        None => {
                            assert(txs@.contains_key(sender));
                            return Err(filter_error());
                        },
                    }
                },
                None => {
                    return Err(filter_error());
                },
            }
            i += 1;
            proof {
                assert forall|a: Address| #[trigger]
                    queue@.rest.contains_key(a) implies queue@.rest[a] == if keys@.take(
                    i as int,
                ).contains(a) {
                    lists[a].drop_first()
                } else {
                    lists[a]
                } by {
                    assert(before.rest.contains_key(a));
                }
            }
        }
        proof {
            lemma_walk_end(keys@, lists.dom());
            assert(keys@.take(i as int) =~= keys@.take(keys@.len() as int));
            assert forall|a: Address| #[trigger] txs@.contains_key(a) implies gas_tip(
                txs@[a]@[0].transaction,
                base_fee,
            ) is Some by {
                assert(lists.contains_key(a));
                assert(keys@.take(i as int).contains(a));
            }
            assert(queue@.rest =~= tails(lists));
            assert forall|a: Address| #[trigger] lists.contains_key(a) implies exists|j: int|
                0 <= j < queue@.heads.len() && (#[trigger] queue@.heads[j]).tx.sender == a by {
                assert(keys@.take(i as int).contains(a));
            }
        }
        Ok(queue)
    }

    /// Drops every transaction.
    pub fn clear(&mut self)
        ensures
            final(self)@ == (QueueView {
                heads: Seq::empty(),
                rest: Map::empty(),
                base_fee: old(self)@.base_fee,
            }),
            final(self)@.wf(),
    {
        self.heads.clear();
        self.txs.clear();
        assert(self@ =~= (QueueView {
            heads: Seq::empty(),
            rest: Map::empty(),
            base_fee: old(self)@.base_fee,
        }));
    }

    pub fn is_empty(&self) -> (b: bool)
        ensures
            b == (self@.heads.len() == 0),
    {
        self.heads.len() == 0
    }

    /// The transaction that goes into the block next. No other head is ahead of it.
    pub fn peek(&self) -> (head: Option<HeadTransaction>)
        requires
            self@.wf(),
        ensures
            match head {
                Some(h) => self@.heads.len() > 0 && h == self@.heads[0] && forall|i: int|
                    0 <= i < self@.heads.len() ==> !(#[trigger] self@.heads[i]).ahead_of(h),
                None => self@.heads.len() == 0,
            },
    {
        if self.heads.len() == 0 {
            None
        } else {
            proof {
                law_order_is_a_weak_order(self@.heads[0], self@.heads[0], self@.heads[0]);
            }
            Some(self.heads[0])
        }
    }

    /// Drops the first transaction and all others of its sender.
    pub fn pop(&mut self)
        requires
            old(self)@.wf(),
        ensures
            final(self)@.wf(),
            final(self)@ == old(self)@.popped(),
    {
        if self.heads.len() > 0 {
            let head = self.heads.remove(0);
            let _ = self.txs.remove(head.tx.sender);
            proof {
                assert(self@.heads =~= old(self)@.heads.drop_first());
                assert(self@.rest =~= old(self)@.rest.remove(head.tx.sender));
            }
        }
        assert(self@ =~= old(self)@.popped());
    }

    /// Drops the first transaction and puts the next one of its sender, where there is
    /// one, into its place in the order. Fails where the fee cap of that one does not
    /// cover the base fee; the two transactions are gone then.
    #[verifier::spinoff_prover]
    #[verifier::rlimit(50)]
    pub fn shift(&mut self) -> (r: Result<(), ChainError>)
        requires
            old(self)@.wf(),
            old(self)@.heads.len() > 0,
        ensures
            final(self)@.wf(),
            final(self)@.base_fee == old(self)@.base_fee,
            final(self)@.rest == old(self)@.shifted_rest(),
            r is Ok <==> old(self)@.follower_pays(),
            r is Ok ==> old(self)@.shifts_to(final(self)@),
            r matches Err(e) ==> filter_failed(e) && final(self)@.heads
                == old(self)@.heads.drop_first(),
    {
        let first = self.heads.remove(0);
        assert(self@.heads =~= old(self)@.heads.drop_first());
        let mut next: Option<MempoolTransaction> = None;
        match self.txs.get_mut(first.tx.sender) {
            Some(list) => {
                if list.len() > 0 {
                    next = Some(list.remove(0));
                }
            },
            None => {},
        }
        let ghost sender = first.tx.sender;
        proof {
            if old(self)@.rest.contains_key(sender) && old(self)@.rest[sender].len() > 0 {
                assert(self@.rest[sender] =~= old(self)@.rest[sender].drop_first());
                assert(old(self)@.rest[sender][0].sender == sender);
            } else if old(self)@.rest.contains_key(sender) {
                assert(self@.rest[sender] =~= old(self)@.rest[sender]);
            }
            assert(self@.rest =~= old(self)@.shifted_rest());
            assert forall|a: Address, i: int|
                #![trigger self@.rest[a][i]]
                self@.rest.contains_key(a) && 0 <= i < self@.rest[a].len() implies self@.rest[a][i].sender
                == a by {
                if a == sender && old(self)@.rest[a].len() > 0 {
                    assert(self@.rest[a][i] == old(self)@.rest[a][i + 1]);
                } else {
                    assert(self@.rest[a][i] == old(self)@.rest[a][i]);
                }
            }
        }
        match next {
            Some(tx) => match tx.transaction.effective_gas_tip(self.base_fee) {
                Some(tip) => {
                    let head = HeadTransaction { tx, tip };
                    let ghost rest = self@.heads;
                    let index: usize = place(&self.heads, &head);
                    self.heads.insert(index, head);
                    proof {
                        let heads = self@.heads;
                        assert(heads =~= rest.insert(index as int, head));
                        assert forall|i: int, j: int| 0 <= i < j < heads.len() implies (
                        #[trigger] heads[i]).tx.sender != (#[trigger] heads[j]).tx.sender by {
                            let a = if i < index { i } else { i - 1 };
                            let b = if j < index { j } else { j - 1 };
                            if i == index {
                                assert(heads[j] == old(self)@.heads[j]);
                                assert(old(self)@.heads[0] == first);
                            } else if j == index {
                                assert(heads[i] == old(self)@.heads[i + 1]);
                                assert(old(self)@.heads[0] == first);
                            } else {
                                assert(heads[i] == old(self)@.heads[a + 1]);
                                assert(heads[j] == old(self)@.heads[b + 1]);
                            }
                        }
                        assert forall|i: int| 0 <= i < heads.len() implies gas_tip(
                            (#[trigger] heads[i]).tx.transaction,
                            self@.base_fee,
                        ) == Some(heads[i].tip) by {
                            let a = if i < index { i } else { i - 1 };
                            if i != index {
                                assert(heads[i] == old(self)@.heads[a + 1]);
                            }
                        }
                    }
                    Ok(())
                },
                None => Err(filter_error()),
            },
            None => Ok(()),
        }
    }
}

/// The transaction of a sender that is among the heads, in a sequence of its own.
pub open spec fn leading(heads: Seq<HeadTransaction>, sender: Address) -> Seq<MempoolTransaction> {
    if exists|i: int| 0 <= i < heads.len() && (#[trigger] heads[i]).tx.sender == sender {
        let i = choose|i: int| 0 <= i < heads.len() && (#[trigger] heads[i]).tx.sender == sender;
        seq![heads[i].tx]
    } else {
        Seq::empty()
    }
}

/// The transactions that are listed under a sender.
pub open spec fn listed(
    txs: Map<Address, Seq<MempoolTransaction>>,
    sender: Address,
) -> Seq<MempoolTransaction> {
    if txs.contains_key(sender) {
        txs[sender]
    } else {
        Seq::empty()
    }
}

impl QueueView {
    /// The transactions of a sender that wait, the head first.
    pub open spec fn waiting(self, sender: Address) -> Seq<MempoolTransaction> {
        leading(self.heads, sender) + listed(self.rest, sender)
    }

    /// Whether every sender of whom a transaction waits has a head.
    pub open spec fn led(self) -> bool {
        forall|a: Address| #[trigger]
            listed(self.rest, a).len() > 0 ==> leading(self.heads, a).len() > 0
    }
}

/// The transactions of one sender among others, in their order.
pub open spec fn of_sender(txs: Seq<MempoolTransaction>, sender: Address) -> Seq<MempoolTransaction>
    decreases txs.len(),
{
    if txs.len() == 0 {
        Seq::empty()
    } else if txs.last().sender == sender {
        of_sender(txs.drop_last(), sender).push(txs.last())
    } else {
        of_sender(txs.drop_last(), sender)
    }
}

/// Whether the queue after step `i` is that before it, shifted.
pub open spec fn shifted_at(queues: Seq<QueueView>, i: int) -> bool {
    queues[i].heads.len() > 0 && queues[i].shifts_to(queues[i + 1])
}

/// Whether the queues are those that come of shifting the first one until it is empty.
pub open spec fn drains(queues: Seq<QueueView>) -> bool {
    &&& queues.len() > 0
    &&& queues.last().heads.len() == 0
    &&& forall|i: int| 0 <= i < queues.len() - 1 ==> #[trigger] shifted_at(queues, i)
}

/// The first transactions of the queues, without the last queue.
pub open spec fn taken(queues: Seq<QueueView>) -> Seq<MempoolTransaction> {
    Seq::new((queues.len() - 1) as nat, |i: int| queues[i].heads[0].tx)
}

proof fn lemma_leading(queue: QueueView, i: int)
    requires
        queue.wf(),
        0 <= i < queue.heads.len(),
    ensures
        leading(queue.heads, queue.heads[i].tx.sender) == seq![queue.heads[i].tx],
{
    let sender = queue.heads[i].tx.sender;
    let j = choose|j: int|
        0 <= j < queue.heads.len() && (#[trigger] queue.heads[j]).tx.sender == sender;
    if j < i {
        assert(queue.heads[j].tx.sender != queue.heads[i].tx.sender);
    } else if i < j {
        assert(queue.heads[i].tx.sender != queue.heads[j].tx.sender);
    }
}

proof fn lemma_leading_same(before: QueueView, after: QueueView, sender: Address)
    requires
        before.wf(),
        before.heads.len() > 0,
        before.shifts_to(after),
        sender != before.heads[0].tx.sender,
    ensures
        leading(after.heads, sender) == leading(before.heads, sender),
{
    let first = before.heads[0].tx.sender;
    let rest = before.heads.drop_first();
    let shifted = before.follower() is Some;
    let at: int = if shifted {
        let tx = before.follower()->0;
        let tip = gas_tip(tx.transaction, before.base_fee)->0;
        assert(tx.sender == first) by {
            assert(before.rest[first][0].sender == first);
        }
        choose|at: int|
            0 <= at <= before.heads.len() - 1 && after.heads == #[trigger] rest.insert(
                at,
                HeadTransaction { tx, tip },
            )
    } else {
        0
    };
    if exists|i: int| 0 <= i < before.heads.len() && (#[trigger] before.heads[i]).tx.sender
        == sender {
        let i = choose|i: int|
            0 <= i < before.heads.len() && (#[trigger] before.heads[i]).tx.sender == sender;
        lemma_leading(before, i);
        assert(rest[i - 1] == before.heads[i]);
        let k = if shifted && i - 1 >= at {
            i
        } else {
            i - 1
        };
        assert(after.heads[k] == before.heads[i]);
        lemma_leading(after, k);
    } else if exists|k: int| 0 <= k < after.heads.len() && (#[trigger] after.heads[k]).tx.sender
        == sender {
        let k = choose|k: int|
            0 <= k < after.heads.len() && (#[trigger] after.heads[k]).tx.sender == sender;
        let i = if shifted && k > at {
            k
        } else {
            k + 1
        };
        assert(!(shifted && k == at));
        assert(after.heads[k] == before.heads[i]);
    }
}

proof fn lemma_shift_takes_one(before: QueueView, after: QueueView, sender: Address)
    requires
        before.wf(),
        before.led(),
        before.heads.len() > 0,
        before.shifts_to(after),
    ensures
        sender == before.heads[0].tx.sender ==> before.waiting(sender) == seq![before.heads[0].tx]
            + after.waiting(sender),
        sender != before.heads[0].tx.sender ==> before.waiting(sender) == after.waiting(sender),
        listed(after.rest, sender).len() > 0 ==> leading(after.heads, sender).len() > 0,
{
    let first = before.heads[0].tx.sender;
    if sender != first {
        lemma_leading_same(before, after, sender);
        assert(listed(after.rest, sender) == listed(before.rest, sender));
    } else {
        lemma_leading(before, 0);
        if before.follower() is Some {
            let tx = before.follower()->0;
            let tip = gas_tip(tx.transaction, before.base_fee)->0;
            assert(before.rest[first][0].sender == first);
            let rest = before.heads.drop_first();
            let at = choose|at: int|
                0 <= at <= before.heads.len() - 1 && after.heads == #[trigger] rest.insert(
                    at,
                    HeadTransaction { tx, tip },
                );
            assert(after.heads[at].tx == tx);
            lemma_leading(after, at);
            assert(before.waiting(first) =~= seq![before.heads[0].tx] + after.waiting(first));
        } else {
            assert(listed(before.rest, first) =~= Seq::empty());
            assert(leading(after.heads, first) =~= Seq::empty()) by {
                if exists|k: int| 0 <= k < after.heads.len() && (
                #[trigger] after.heads[k]).tx.sender == first {
                    let k = choose|k: int|
                        0 <= k < after.heads.len() && (#[trigger] after.heads[k]).tx.sender
                            == first;
                    assert(after.heads[k] == before.heads[k + 1]);
                }
            }
            assert(before.waiting(first) =~= seq![before.heads[0].tx] + after.waiting(first));
        }
    }
}

proof fn lemma_drained(queues: Seq<QueueView>, n: int, sender: Address)
    requires
        drains(queues),
        queues[0].wf(),
        queues[0].led(),
        0 <= n < queues.len(),
    ensures
        queues[n].wf(),
        queues[n].led(),
        queues[n].base_fee == queues[0].base_fee,
        of_sender(taken(queues).take(n), sender) + queues[n].waiting(sender)
            == queues[0].waiting(sender),
    decreases n,
{
    if n == 0 {
        assert(taken(queues).take(0) =~= Seq::empty());
        assert(Seq::<MempoolTransaction>::empty() + queues[0].waiting(sender)
            =~= queues[0].waiting(sender));
    } else {
        let before = queues[n - 1];
        lemma_drained(queues, n - 1, sender);
        assert(shifted_at(queues, n - 1));
        assert forall|a: Address| #[trigger] listed(queues[n].rest, a).len() > 0 implies leading(
            queues[n].heads,
            a,
        ).len() > 0 by {
            lemma_shift_takes_one(before, queues[n], a);
        }
        lemma_shift_takes_one(before, queues[n], sender);
        let now = taken(queues).take(n);
        assert(now.drop_last() =~= taken(queues).take(n - 1));
        assert(now.last() == before.heads[0].tx);
        assert(of_sender(now, sender) + queues[n].waiting(sender) =~= of_sender(
            now.drop_last(),
            sender,
        ) + before.waiting(sender));
    }
}

proof fn lemma_counts_of_sender(txs: Seq<MempoolTransaction>, tx: MempoolTransaction)
    ensures
        of_sender(txs, tx.sender).to_multiset().count(tx) == txs.to_multiset().count(tx),
    decreases txs.len(),
{
    broadcast use vstd::seq_lib::group_to_multiset_ensures;

    if txs.len() > 0 {
        lemma_counts_of_sender(txs.drop_last(), tx);
        assert(txs =~= txs.drop_last().push(txs.last()));
    }
}

/// Whether `head` is the next transaction of a sender when `i` were taken, with its tip:
/// the first of the list that was not taken yet.
pub open spec fn comes_next(
    txs: Map<Address, Seq<MempoolTransaction>>,
    queues: Seq<QueueView>,
    i: int,
    sender: Address,
    head: HeadTransaction,
) -> bool {
    let left = listed(txs, sender).skip(of_sender(taken(queues).take(i), sender).len() as int);
    &&& left.len() > 0
    &&& head.tx == left[0]
    &&& gas_tip(head.tx.transaction, queues[0].base_fee) == Some(head.tip)
}

/// Taking the transactions out of a new queue one by one gives each of them once, those of
/// a sender in the order of their list. Whenever one is taken, none that comes next for a
/// sender is ahead of it.
pub proof fn law_drained_queue_gave_everything(
    txs: Map<Address, Seq<MempoolTransaction>>,
    queues: Seq<QueueView>,
)
    requires
        by_sender(txs),
        drains(queues),
        queues[0].wf(),
        first_of_each(queues[0].heads, txs, queues[0].base_fee),
        queues[0].rest == tails(txs),
    ensures
        forall|a: Address| #[trigger] of_sender(taken(queues), a) == listed(txs, a),
        forall|tx: MempoolTransaction| #[trigger]
            taken(queues).to_multiset().count(tx) == listed(txs, tx.sender).to_multiset().count(
                tx,
            ),
        forall|i: int, a: Address, head: HeadTransaction|
            0 <= i < taken(queues).len() && #[trigger] comes_next(txs, queues, i, a, head)
                ==> !head.ahead_of(queues[i].heads[0]),
{
    let all = taken(queues);
    let end = queues.len() - 1;
    assert forall|a: Address| queues[0].waiting(a) == #[trigger] listed(txs, a) by {
        lemma_new_waits(txs, queues[0], a);
    }
    assert forall|a: Address| #[trigger] listed(queues[0].rest, a).len() > 0 implies leading(
        queues[0].heads,
        a,
    ).len() > 0 by {
        lemma_new_waits(txs, queues[0], a);
    }
    assert forall|a: Address| #[trigger] of_sender(all, a) == listed(txs, a) by {
        lemma_drained(queues, end, a);
        assert(all.take(end) =~= all);
        assert(queues[end].heads.len() == 0);
        assert(leading(queues[end].heads, a) =~= Seq::empty());
        assert(listed(queues[end].rest, a).len() == 0);
        assert(queues[end].waiting(a) =~= Seq::empty());
        assert(of_sender(all, a) + queues[end].waiting(a) =~= of_sender(all, a));
    }
    assert forall|tx: MempoolTransaction| #[trigger] all.to_multiset().count(tx) == listed(
        txs,
        tx.sender,
    ).to_multiset().count(tx) by {
        lemma_counts_of_sender(all, tx);
        assert(of_sender(all, tx.sender) == listed(txs, tx.sender));
    }
    assert forall|i: int, a: Address, head: HeadTransaction|
        0 <= i < all.len() && #[trigger] comes_next(txs, queues, i, a, head) implies !head.ahead_of(
        queues[i].heads[0],
    ) by {
        assert(queues[0].waiting(a) == listed(txs, a));
        lemma_next_is_not_ahead(txs, queues, i, a, head);
    }
}

proof fn lemma_new_waits(
    txs: Map<Address, Seq<MempoolTransaction>>,
    queue: QueueView,
    sender: Address,
)
    requires
        by_sender(txs),
        queue.wf(),
        first_of_each(queue.heads, txs, queue.base_fee),
        queue.rest == tails(txs),
    ensures
        queue.waiting(sender) == listed(txs, sender),
        listed(queue.rest, sender).len() > 0 ==> leading(queue.heads, sender).len() > 0,
{
    if txs.contains_key(sender) {
        let i = choose|i: int|
            0 <= i < queue.heads.len() && (#[trigger] queue.heads[i]).tx.sender == sender;
        lemma_leading(queue, i);
        assert(seq![txs[sender][0]] + txs[sender].drop_first() =~= txs[sender]);
    } else {
        assert(leading(queue.heads, sender) =~= Seq::empty());
        assert(queue.waiting(sender) =~= Seq::empty());
    }
}

proof fn lemma_next_is_not_ahead(
    txs: Map<Address, Seq<MempoolTransaction>>,
    queues: Seq<QueueView>,
    i: int,
    sender: Address,
    head: HeadTransaction,
)
    requires
        drains(queues),
        queues[0].wf(),
        queues[0].led(),
        queues[0].waiting(sender) == listed(txs, sender),
        0 <= i < queues.len() - 1,
        comes_next(txs, queues, i, sender, head),
    ensures
        !head.ahead_of(queues[i].heads[0]),
{
    lemma_drained(queues, i, sender);
    assert(shifted_at(queues, i));
    let queue = queues[i];
    let seen = of_sender(taken(queues).take(i), sender);
    let left = listed(txs, sender).skip(seen.len() as int);
    assert((seen + queue.waiting(sender)).skip(seen.len() as int) =~= queue.waiting(sender));
    assert(listed(queue.rest, sender).len() > 0 ==> leading(queue.heads, sender).len() > 0);
    assert(leading(queue.heads, sender).len() > 0);
    let k = choose|k: int|
        0 <= k < queue.heads.len() && (#[trigger] queue.heads[k]).tx.sender == sender;
    lemma_leading(queue, k);
    assert(left[0] == queue.heads[k].tx);
    assert(queue.heads[k] == head);
    law_order_is_a_weak_order(queue.heads[0], queue.heads[0], queue.heads[0]);
}

} // verus!
