//! What a worker of the state trie does with an account and its slots.

use crate::account::{empty_keccak, empty_trie, AccountState};
use crate::blockchain::assembly::SlotWrite;
use crate::blockchain::merkle_worker::{
    account_effects, deletions, expected_after, has_worker, holders, law_worker_set,
    lemma_holders, polled, process_effects, processed, slot_effects, slots_of, write_account,
    BeforePoll, Effect, Outgoing, ProcessAccount, WorkerView,
};
use crate::word::{be_bytes, law_bytes_spell_their_number, pow256, H256, U256};
use vstd::prelude::*;

verus! {

proof fn lemma_first_byte(value: nat, count: nat)
    requires
        count > 0,
    ensures
        be_bytes(value, count).len() == count,
        be_bytes(value, count)[0] == (value / pow256((count - 1) as nat)) % 256,
    decreases count,
{
    law_bytes_spell_their_number(value, count);
    let rest = (count - 1) as nat;
    if rest > 0 {
        lemma_first_byte(value / 256, rest);
        let below = pow256((rest - 1) as nat);
        assert(pow256(rest) == below * 256);
        lemma_pow256_positive((rest - 1) as nat);
        vstd::arithmetic::div_mod::lemma_div_denominator(value as int, 256, below as int);
        assert((value / 256) / below == value / pow256(rest));
        assert(be_bytes(value, count)[0] == be_bytes(value / 256, rest)[0]);
    } else {
        assert(pow256(0) == 1);
        assert(value / 1 == value);
        assert(be_bytes(value / 256, 0).len() == 0);
        assert(be_bytes(value, count)[0] == (value % 256) as u8);
    }
}

proof fn lemma_pow256_positive(n: nat)
    ensures
        pow256(n) > 0,
    decreases n,
{
    if n > 0 {
        lemma_pow256_positive((n - 1) as nat);
    }
}

/// The worker that a hash belongs to is told by the upper half of its first byte.
pub proof fn law_worker_of_a_hash(hash: H256)
    ensures
        hash.nibble() == hash.bytes()[0] / 16,
        0 <= hash.nibble() < 16,
{
    lemma_first_byte(hash.hi as nat, 16);
    reveal_with_fuel(pow256, 16);
    assert(pow256(15) == 0x1_0000_0000_0000_0000_0000_0000_0000_00);
    assert(hash.bytes()[0] == be_bytes(hash.hi as nat, 16)[0]);
    let upper = hash.hi as int / 0x1_0000_0000_0000_0000_0000_0000_0000_00;
    assert(hash.bytes()[0] == upper);
    vstd::arithmetic::div_mod::lemma_div_denominator(
        hash.hi as int,
        0x1_0000_0000_0000_0000_0000_0000_0000_00,
        16,
    );
}

/// What is known of an account before a request: what the worker holds, else what its
/// trie gave, else an account that does not exist.
pub open spec fn prior(
    worker: WorkerView,
    prefix: H256,
    loaded: Option<AccountState>,
    was: AccountState,
) -> bool {
    if worker.accounts.contains_key(prefix) {
        was == worker.accounts[prefix]
    } else if loaded is Some {
        was == loaded->0
    } else {
        was.nonce == 0 && was.balance@ == 0 && was.code_hash == empty_keccak() && was.storage_root
            == empty_trie()
    }
}

/// When a request carries the fields of an account, the account that the worker keeps
/// has exactly the request's nonce, balance and code hash; without them it keeps those
/// that it had. Its storage root is the one from before, or that of the empty trie where
/// the account or its storage was removed. No other account changes.
pub proof fn law_worker_keeps_the_requested_account(
    worker: WorkerView,
    request: ProcessAccount,
    loaded: Option<AccountState>,
    was: AccountState,
    other: H256,
)
    requires
        prior(worker, request.prefix, loaded, was),
    ensures
        ({
            let after = processed(worker, request, loaded);
            let kept = after.accounts[request.prefix];
            &&& after.accounts.contains_key(request.prefix)
            &&& request.info matches Some(info) ==> kept.nonce == info.nonce && kept.balance
                == info.balance && kept.code_hash == info.code_hash
            &&& request.info is None ==> kept.nonce == was.nonce && kept.balance == was.balance
                && kept.code_hash == was.code_hash
            &&& kept.storage_root == if request.removed || request.removed_storage {
                empty_trie()
            } else {
                was.storage_root
            }
            &&& other != request.prefix ==> (after.accounts.contains_key(other)
                <==> worker.accounts.contains_key(other)) && after.accounts[other]
                == worker.accounts[other]
            &&& after.index == worker.index
            &&& after.received == worker.received
            &&& after.resolving == worker.resolving
            &&& after.to_collect == worker.to_collect
            &&& after.asked == worker.asked
            &&& after.collecting == worker.collecting
            &&& after.routed == worker.routed
            &&& after.done_mask == worker.done_mask
            &&& after.dirty
        }),
{
    lemma_prior(worker, request.prefix, loaded, was);
}

proof fn lemma_prior(
    worker: WorkerView,
    prefix: H256,
    loaded: Option<AccountState>,
    was: AccountState,
)
    requires
        prior(worker, prefix, loaded, was),
    ensures
        was == crate::blockchain::merkle_worker::held_account(worker, prefix, loaded),
{
    if !worker.accounts.contains_key(prefix) && loaded is None {
        crate::word::lemma_word_ext(was.balance, U256 { hi: 0, lo: 0 });
    }
}

/// Whether an effect writes or removes an account.
pub open spec fn writes_account(effect: Effect) -> bool {
    effect is PutAccount || effect is RemoveAccount
}

/// Whether an effect speaks of slots.
pub open spec fn about_a_slot(effect: Effect) -> bool {
    match effect {
        Effect::WriteSlot { .. } => true,
        Effect::Send { message, .. } => message is MerklizeStorage,
        _ => false,
    }
}

/// How many effects come before those of the slots.
pub open spec fn lead(
    worker: WorkerView,
    request: ProcessAccount,
    loaded: Option<AccountState>,
) -> int {
    process_effects(worker, request, loaded).len() - if request.removed {
        0
    } else {
        request.storage@.len() as int
    }
}

/// When a request carries the fields of an account, the worker writes that account to
/// the trie once, with exactly the request's nonce, balance and code hash and the storage
/// root from before, or removes it where all of these are those of an account that does
/// not exist. Without the fields no account is written.
pub proof fn law_worker_writes_the_requested_account(
    worker: WorkerView,
    request: ProcessAccount,
    loaded: Option<AccountState>,
    was: AccountState,
)
    requires
        prior(worker, request.prefix, loaded, was),
    ensures
        ({
            let effects = process_effects(worker, request, loaded);
            &&& forall|i: int|
                0 <= i < effects.len() ==> match #[trigger] effects[i] {
                    Effect::PutAccount { prefix, state } => {
                        &&& prefix == request.prefix
                        &&& request.info is Some
                        &&& state.nonce == request.info->0.nonce
                        &&& state.balance == request.info->0.balance
                        &&& state.code_hash == request.info->0.code_hash
                        &&& state.storage_root == was.storage_root
                        &&& !(state.nonce == 0 && state.balance@ == 0 && state.code_hash
                            == empty_keccak() && state.storage_root == empty_trie())
                    },
                    Effect::RemoveAccount { prefix } => {
                        &&& prefix == request.prefix
                        &&& request.info is Some
                        &&& request.info->0.nonce == 0
                        &&& request.info->0.balance@ == 0
                        &&& request.info->0.code_hash == empty_keccak()
                        &&& was.storage_root == empty_trie()
                    },
                    _ => true,
                }
            &&& request.info is Some ==> exists|i: int|
                0 <= i < effects.len() && writes_account(#[trigger] effects[i])
            &&& forall|i: int, j: int|
                0 <= i < j < effects.len() && writes_account(#[trigger] effects[i])
                    ==> !writes_account(#[trigger] effects[j])
            &&& forall|i: int|
                0 <= i < effects.len() && (#[trigger] effects[i]) is TouchAccount ==> i == 0
                    && effects[i]->TouchAccount_prefix == request.prefix && loaded is Some
                    && !worker.accounts.contains_key(request.prefix)
            &&& loaded is Some && !worker.accounts.contains_key(request.prefix) ==> effects.len()
                > 0 && effects[0] is TouchAccount
        }),
{
    lemma_prior(worker, request.prefix, loaded, was);
    let effects = process_effects(worker, request, loaded);
    let first = account_effects(worker, request, loaded);
    let touched = if !worker.accounts.contains_key(request.prefix) && loaded is Some {
        1int
    } else {
        0
    };
    let written = if request.info is Some {
        1int
    } else {
        0
    };
    lemma_deletions(request.prefix, worker.index, 0);
    let gone = deletions(request.prefix, worker.index, 0);
    if request.info is Some {
        assert(effects[touched] == write_account(
            request.prefix,
            crate::blockchain::merkle_worker::informed(was, request.info),
        ));
        assert(writes_account(effects[touched]));
        if request.info->0.balance@ == 0 {
            crate::word::lemma_word_ext(request.info->0.balance, U256 { hi: 0, lo: 0 });
        }
    }
    assert forall|i: int| 0 <= i < effects.len() && i >= touched + written implies !writes_account(
        #[trigger] effects[i],
    ) && !(effects[i] is TouchAccount) by {
        if i < first.len() {
            assert(effects[i] == first[i]);
            if i > touched + written {
                assert(effects[i] == gone[i - touched - written - 1]);
            }
        } else {
            assert(about_a_slot(effects[i]));
        }
    }
}

proof fn lemma_deletions(prefix: H256, index: u8, from: int)
    requires
        0 <= from <= 16,
    ensures
        forall|i: int|
            0 <= i < deletions(prefix, index, from).len() ==> match #[trigger] deletions(
                prefix,
                index,
                from,
            )[i] {
                Effect::Send { to, message } => from <= to < 16 && to != index && message
                    == Outgoing::DeleteStorage(prefix),
                _ => false,
            },
        forall|w: u8|
            from <= w < 16 && w != index ==> deletions(prefix, index, from).contains(
                #[trigger] deletion(prefix, w),
            ),
    decreases 16 - from,
{
    if from < 16 {
        lemma_deletions(prefix, index, from + 1);
        let rest = deletions(prefix, index, from + 1);
        let all = deletions(prefix, index, from);
        let head = if from == index {
            Seq::<Effect>::empty()
        } else {
            seq![Effect::Send { to: from as u8, message: Outgoing::DeleteStorage(prefix) }]
        };
        assert(all == head + rest);
        assert forall|w: u8| from <= w < 16 && w != index implies all.contains(
            #[trigger] deletion(prefix, w),
        ) by {
            if w == from {
                assert(all[0] == deletion(prefix, w));
            } else {
                assert(rest.contains(deletion(prefix, w)));
                let i = rest.index_of(deletion(prefix, w));
                assert(all[head.len() + i] == rest[i]);
            }
        }
        assert forall|i: int| 0 <= i < all.len() implies match #[trigger] all[i] {
            Effect::Send { to, message } => from <= to < 16 && to != index && message
                == Outgoing::DeleteStorage(prefix),
            _ => false,
        } by {
            if i >= head.len() {
                assert(all[i] == rest[i - head.len()]);
            }
        }
    }
}

/// The message that tells a worker that the storage of an account is gone.
pub open spec fn deletion(prefix: H256, to: u8) -> Effect {
    Effect::Send { to, message: Outgoing::DeleteStorage(prefix) }
}

/// Where an account or its storage was removed, the storage trie is emptied here and
/// every other worker is told so, before any slot is spoken of; otherwise neither
/// happens. Then each slot of the request, unless the account was removed, leads to one
/// effect, in their order: where the upper half of the first byte of its key names this
/// worker it is written under the account, with its value, or removed where the value is
/// zero, and otherwise it is sent to the worker that is named, with its key, its value and
/// the storage root that the account has now.
pub proof fn law_worker_deals_the_slots_out(
    worker: WorkerView,
    request: ProcessAccount,
    loaded: Option<AccountState>,
    other: u8,
)
    requires
        worker.index < 16,
        other < 16,
    ensures
        ({
            let effects = process_effects(worker, request, loaded);
            let start = lead(worker, request, loaded);
            let root = processed(worker, request, loaded).accounts[request.prefix].storage_root;
            let reset = request.removed || request.removed_storage;
            &&& 0 <= start <= effects.len()
            &&& forall|i: int|
                0 <= i < effects.len() && (#[trigger] effects[i]) is ResetStorage ==> reset && i
                    < start && effects[i]->ResetStorage_prefix == request.prefix
            &&& reset ==> exists|i: int|
                0 <= i < start && #[trigger] effects[i] == (Effect::ResetStorage {
                    prefix: request.prefix,
                })
            &&& reset && other != worker.index ==> exists|i: int|
                0 <= i < start && #[trigger] effects[i] == deletion(request.prefix, other)
            &&& forall|i: int|
                0 <= i < start ==> match #[trigger] effects[i] {
                    Effect::Send { to, message } => reset && message == Outgoing::DeleteStorage(
                        request.prefix,
                    ) && to < 16 && to != worker.index,
                    Effect::WriteSlot { .. } => false,
                    _ => true,
                }
            &&& forall|i: int|
                !request.removed && 0 <= i < request.storage@.len() ==> ({
                    let (key, value) = #[trigger] request.storage@[i];
                    let holder = key.bytes()[0] / 16;
                    effects[start + i] == if holder == worker.index {
                        Effect::WriteSlot {
                            prefix: request.prefix,
                            write: if value@ == 0 {
                                SlotWrite::Remove { key }
                            } else {
                                SlotWrite::Put { key, value }
                            },
                            storage_root: root,
                        }
                    } else {
                        Effect::Send {
                            to: holder,
                            message: Outgoing::MerklizeStorage {
                                prefix: request.prefix,
                                key,
                                value,
                                storage_root: root,
                            },
                        }
                    }
                })
            &&& request.removed ==> start == effects.len()
        }),
{
    let effects = process_effects(worker, request, loaded);
    let first = account_effects(worker, request, loaded);
    let start = lead(worker, request, loaded);
    assert(start == first.len());
    let touched = if !worker.accounts.contains_key(request.prefix) && loaded is Some {
        1int
    } else {
        0
    };
    let written = if request.info is Some {
        1int
    } else {
        0
    };
    lemma_deletions(request.prefix, worker.index, 0);
    let gone = deletions(request.prefix, worker.index, 0);
    let reset = request.removed || request.removed_storage;
    if reset {
        let at = touched + written;
        assert(effects[at] == (Effect::ResetStorage { prefix: request.prefix }));
        if other != worker.index {
            assert(gone.contains(deletion(request.prefix, other)));
            let i = gone.index_of(deletion(request.prefix, other));
            assert(effects[at + 1 + i] == gone[i]);
        }
    }
    assert forall|i: int| 0 <= i < start implies match #[trigger] effects[i] {
        Effect::Send { to, message } => reset && message == Outgoing::DeleteStorage(request.prefix)
            && to < 16 && to != worker.index,
        Effect::WriteSlot { .. } => false,
        Effect::ResetStorage { prefix } => reset && prefix == request.prefix,
        _ => true,
    } by {
        assert(effects[i] == first[i]);
        if i > touched + written {
            assert(effects[i] == gone[i - touched - written - 1]);
        }
    }
    assert forall|i: int| !request.removed && 0 <= i < request.storage@.len() implies ({
        let (key, value) = #[trigger] request.storage@[i];
        about_a_slot(effects[start + i]) && key.nibble() == key.bytes()[0] / 16
    }) by {
        let (key, value) = request.storage@[i];
        law_worker_of_a_hash(key);
        let root = processed(worker, request, loaded).accounts[request.prefix].storage_root;
        let dealt = slot_effects(worker.index, request.prefix, root, slots_of(request));
        assert(effects[start + i] == dealt[i]);
    }
    assert forall|i: int| start <= i < effects.len() implies about_a_slot(
        #[trigger] effects[i],
    ) by {
        let j = i - start;
        assert(request.storage@[j] == slots_of(request)[j]);
    }
}

/// After a request shards of the account are to come from every worker where its storage
/// was removed, and otherwise from those that they were to come from and those that the
/// slots of the request belong to, and nothing changes for other accounts. The account
/// counts as waiting from the first such request on.
pub proof fn law_worker_awaits_the_holders(
    worker: WorkerView,
    request: ProcessAccount,
    loaded: Option<AccountState>,
    from: u8,
    other: H256,
)
    requires
        from < 16,
    ensures
        ({
            let after = processed(worker, request, loaded);
            let p = request.prefix;
            let reset = request.removed || request.removed_storage;
            let dealt = !request.removed && request.storage@.len() > 0;
            &&& after.expected.contains_key(p) <==> worker.expected.contains_key(p) || reset
                || dealt
            &&& after.expected.contains_key(p) ==> (has_worker(after.expected[p], from) <==> reset
                || (worker.expected.contains_key(p) && has_worker(worker.expected[p], from)) || (
            !request.removed && exists|i: int|
                0 <= i < request.storage@.len() && (#[trigger] request.storage@[i]).0.bytes()[0]
                    / 16 == from))
            &&& other != p ==> (after.expected.contains_key(other)
                <==> worker.expected.contains_key(other)) && after.expected[other]
                == worker.expected[other]
            &&& after.pending == worker.pending + if after.expected.contains_key(p)
                && !worker.expected.contains_key(p) {
                1int
            } else {
                0
            }
            &&& after.open.contains(p) <==> worker.open.contains(p) || reset || (
            !request.removed && exists|i: int|
                0 <= i < request.storage@.len() && (#[trigger] request.storage@[i]).0.bytes()[0]
                    / 16 == worker.index)
            &&& other != p ==> (after.open.contains(other) <==> worker.open.contains(other))
        }),
{
    let p = request.prefix;
    let slots = slots_of(request);
    let reset = request.removed || request.removed_storage;
    let before = if reset {
        crate::blockchain::merkle_worker::ALL_WORKERS
    } else if worker.expected.contains_key(p) {
        worker.expected[p]
    } else {
        0
    };
    lemma_holders(before, slots, from);
    law_worker_set(0, from, from);
    assert(expected_after(worker, request) == processed(worker, request, loaded).expected);
    if slots.len() > 0 {
        assert(expected_after(worker, request)[p] == holders(before, slots));
    }
    assert forall|i: int| 0 <= i < slots.len() implies (#[trigger] slots[i]).0.nibble()
        == slots[i].0.bytes()[0] / 16 by {
        law_worker_of_a_hash(slots[i].0);
    }
    let seen = exists|i: int|
        0 <= i < request.storage@.len() && (#[trigger] request.storage@[i]).0.bytes()[0] / 16
            == from;
    if !request.removed && seen {
        let i = choose|i: int|
            0 <= i < request.storage@.len() && (#[trigger] request.storage@[i]).0.bytes()[0] / 16
                == from;
        assert(slots[i].0.nibble() == from);
    }
    if exists|i: int| 0 <= i < slots.len() && (#[trigger] slots[i]).0.nibble() == from {
        let i = choose|i: int| 0 <= i < slots.len() && (#[trigger] slots[i]).0.nibble() == from;
        assert(request.storage@[i].0.bytes()[0] / 16 == from);
    }
    let here = exists|i: int|
        0 <= i < request.storage@.len() && (#[trigger] request.storage@[i]).0.bytes()[0] / 16
            == worker.index;
    if !request.removed && here {
        let i = choose|i: int|
            0 <= i < request.storage@.len() && (#[trigger] request.storage@[i]).0.bytes()[0] / 16
                == worker.index;
        assert(slots[i].0.nibble() == worker.index);
    }
    if exists|i: int| 0 <= i < slots.len() && (#[trigger] slots[i]).0.nibble() == worker.index {
        let i = choose|i: int|
            0 <= i < slots.len() && (#[trigger] slots[i]).0.nibble() == worker.index;
        assert(request.storage@[i].0.bytes()[0] / 16 == worker.index);
    }
}

/// While a worker sends its storage tries, one of those that are left goes to the worker
/// that its account belongs to, and is left no more. When none is left it stops, and hands
/// the state over exactly where that was asked for and no account waits. Otherwise nothing
/// happens.
pub proof fn law_worker_sends_each_trie_to_its_holder(worker: WorkerView)
    ensures
        ({
            let (after, next) = polled(worker);
            &&& !worker.collecting ==> after == worker && next is Nothing
            &&& worker.collecting && worker.to_collect.len() > 0 ==> match next {
                BeforePoll::SendShard { prefix, to } => {
                    &&& to == prefix.bytes()[0] / 16
                    &&& worker.to_collect == after.to_collect.push(prefix)
                    &&& after.collecting
                    &&& after.asked == worker.asked
                },
                _ => false,
            }
            &&& worker.collecting && worker.to_collect.len() == 0 ==> {
                &&& !after.collecting
                &&& match next {
                    BeforePoll::StopSendingAndCollect => worker.pending == 0 && worker.asked
                        && !after.asked,
                    BeforePoll::StopSending => !(worker.pending == 0 && worker.asked)
                        && after.asked == worker.asked,
                    _ => false,
                }
            }
            &&& after.accounts == worker.accounts
            &&& after.expected == worker.expected
            &&& after.received == worker.received
            &&& after.pending == worker.pending
            &&& after.open == worker.open
            &&& after.dirty == worker.dirty
            &&& after.routed == worker.routed
            &&& after.resolving == worker.resolving
        }),
{
    if worker.collecting && worker.to_collect.len() > 0 {
        law_worker_of_a_hash(worker.to_collect.last());
        assert(worker.to_collect =~= worker.to_collect.drop_last().push(worker.to_collect.last()));
    }
}

} // verus!
