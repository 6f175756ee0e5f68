//! Dealing account updates out to the workers that bring the state trie up to date.

use crate::account::{AccountInfo, AccountUpdate, Code, CodeView, UpdateView};
use crate::blockchain::merkle_worker::ProcessAccount;
use crate::table::{lemma_walk, lemma_walk_end, Duplicate, Table};
use crate::word::{Address, H256, U256};
use vstd::prelude::*;

verus! {

impl UpdateView {
    /// An update followed by another one of the same account: the later one decides, and
    /// where it removes all storage the slots before it are gone.
    pub open spec fn merged(self, later: UpdateView) -> UpdateView {
        UpdateView {
            address: self.address,
            removed: later.removed,
            info: if later.info is Some {
                later.info
            } else {
                self.info
            },
            code: if later.code is Some {
                later.code
            } else {
                self.code
            },
            added_storage: if later.removed || later.removed_storage {
                later.added_storage
            } else {
                self.added_storage.union_prefer_right(later.added_storage)
            },
            removed_storage: self.removed_storage || later.removed_storage,
        }
    }
}

/// A second copy of an optional code.
fn copy_code(code: &Option<Code>) -> (copy: Option<Code>)
    ensures
        match (copy, *code) {
            (Some(a), Some(b)) => a@ == b@,
            (None, None) => true,
            _ => false,
        },
{
    match code {
        Some(code) => Some(code.duplicate()),
        None => None,
    }
}

impl Duplicate for AccountUpdate {
    fn duplicate(&self) -> (update: AccountUpdate) {
        AccountUpdate {
            address: self.address,
            removed: self.removed,
            info: self.info,
            code: copy_code(&self.code),
            added_storage: self.added_storage.duplicate(),
            removed_storage: self.removed_storage,
        }
    }
}

impl AccountUpdate {
    /// Takes a later update of the same account in. Where the later one removes the account
    /// or its storage, nothing is left of the slots that the earlier one wrote.
    pub fn merge(&mut self, later: &AccountUpdate)
        ensures
            final(self)@ == old(self)@.merged(later@),
    {
        self.removed = later.removed;
        self.removed_storage = self.removed_storage || later.removed_storage;
        if later.info.is_some() {
            self.info = later.info;
        }
        if later.code.is_some() {
            self.code = copy_code(&later.code);
        }
        if later.removed || later.removed_storage {
            self.added_storage = later.added_storage.duplicate();
        } else {
            self.added_storage.extend_from(&later.added_storage);
        }
    }
}

/// What a table of updates holds.
pub open spec fn update_map(updates: Map<Address, AccountUpdate>) -> Map<Address, UpdateView> {
    Map::new(|a: Address| updates.contains_key(a), |a: Address| updates[a]@)
}

/// The updates of each account, with one more.
pub open spec fn accumulated(
    updates: Map<Address, UpdateView>,
    update: UpdateView,
) -> Map<Address, UpdateView> {
    if updates.contains_key(update.address) {
        updates.insert(update.address, updates[update.address].merged(update))
    } else {
        updates.insert(update.address, update)
    }
}

/// Deals account updates out.
pub struct UpdateRouter {
    /// The new codes, with their hashes.
    pub code_updates: Vec<(H256, Code)>,
    /// The hashed addresses of all accounts that were dealt out.
    pub accounts: Table<H256, ()>,
    /// The hashed addresses of those whose storage changes.
    pub has_storage: Table<H256, ()>,
    /// The updates, one for each account, where a witness is to be made of them.
    pub accumulator: Option<Table<Address, AccountUpdate>>,
}

/// What a router holds.
#[verifier::ext_equal]
pub struct RouterView {
    pub codes: Seq<(H256, CodeView)>,
    pub accounts: Set<H256>,
    pub has_storage: Set<H256>,
    pub accumulator: Option<Map<Address, UpdateView>>,
}

impl View for UpdateRouter {
    type V = RouterView;

    open spec fn view(&self) -> RouterView {
        RouterView {
            codes: Seq::new(
                self.code_updates@.len(),
                |i: int| (self.code_updates@[i].0, self.code_updates@[i].1@),
            ),
            accounts: self.accounts@.dom(),
            has_storage: self.has_storage@.dom(),
            accumulator: match self.accumulator {
                Some(updates) => Some(update_map(updates@)),
                None => None,
            },
        }
    }
}

/// What a worker is told of an account: a removed account is an empty one without
/// storage.
pub open spec fn request_for(
    hashed_address: H256,
    update: UpdateView,
    hashed_slots: Seq<(H256, U256)>,
    request: ProcessAccount,
) -> bool {
    &&& request.prefix == hashed_address
    &&& request.removed == update.removed
    &&& request.removed_storage == update.removed_storage
    &&& request.info == if update.removed {
        Some(AccountInfo::blank())
    } else {
        update.info
    }
    &&& request.storage@ == if update.removed {
        Seq::empty()
    } else {
        hashed_slots
    }
}

/// The router after an update was dealt out.
pub open spec fn routed(
    router: RouterView,
    hashed_address: H256,
    update: UpdateView,
    hashed_slots: Seq<(H256, U256)>,
) -> RouterView {
    RouterView {
        codes: if !update.removed && update.info is Some && update.code is Some {
            router.codes.push((update.info->0.code_hash, update.code->0))
        } else {
            router.codes
        },
        accounts: router.accounts.insert(hashed_address),
        has_storage: if update.removed || update.removed_storage || hashed_slots.len() > 0 {
            router.has_storage.insert(hashed_address)
        } else {
            router.has_storage
        },
        accumulator: match router.accumulator {
            Some(updates) => Some(accumulated(updates, update)),
            None => None,
        },
    }
}

impl UpdateRouter {
    /// A router that, where a witness is to be made, keeps the updates.
    pub fn new(collect_witness: bool) -> (r: UpdateRouter)
        ensures
            r@ == (RouterView {
                codes: Seq::empty(),
                accounts: Set::empty(),
                has_storage: Set::empty(),
                accumulator: if collect_witness {
                    Some(Map::empty())
                } else {
                    None
                },
            }),
    {
        let r = UpdateRouter {
            code_updates: Vec::new(),
            accounts: Table::new(),
            has_storage: Table::new(),
            accumulator: if collect_witness {
                Some(Table::new())
            } else {
                None
            },
        };
        assert(r@ =~= (RouterView {
            codes: Seq::empty(),
            accounts: Set::empty(),
            has_storage: Set::empty(),
            accumulator: if collect_witness {
                Some(Map::empty())
            } else {
                None
            },
        })) by {
            if collect_witness {
                assert(r@.accumulator->0 =~= Map::empty());
            }
        }
        r
    }

    fn accumulate(&mut self, update: &AccountUpdate)
        ensures
            final(self)@ == (RouterView {
                accumulator: match old(self)@.accumulator {
                    Some(updates) => Some(accumulated(updates, update@)),
                    None => None,
                },
                ..old(self)@
            }),
    {
        let ghost before = self@.accumulator;
        match &mut self.accumulator {
            Some(updates) => {
                let mut known = true;
                match updates.get_mut(update.address) {
                    Some(held) => {
                        held.merge(update);
                    },
                    None => {
                        known = false;
                    },
                }
                if !known {
                    updates.insert(update.address, update.duplicate());
                }
            },
            None => {},
        }
        proof {
            if before is Some {
                assert(self@.accumulator->0 =~= accumulated(before->0, update@));
            }
        }
    }

    /// Deals an update out. `hashed_slots` are its slots with their keys hashed. Gives
    /// the worker that holds the account, by the first nibble of its hashed address, and
    /// what it is told.
    pub fn route(
        &mut self,
        hashed_address: H256,
        update: &AccountUpdate,
        hashed_slots: Vec<(H256, U256)>,
    ) -> (r: (u8, ProcessAccount))
        ensures
            r.0 == hashed_address.nibble(),
            r.0 < 16,
            request_for(hashed_address, update@, hashed_slots@, r.1),
            final(self)@ == routed(old(self)@, hashed_address, update@, hashed_slots@),
    {
        self.accumulate(update);
        let ghost kept = self@;
        if !update.removed {
            match (&update.info, &update.code) {
                (Some(info), Some(code)) => {
                    self.code_updates.push((info.code_hash, code.duplicate()));
                    assert(self@.codes =~= kept.codes.push((info.code_hash, code@)));
                },
                _ => {},
            }
        }
        self.accounts.insert(hashed_address, ());
        if update.removed || update.removed_storage || hashed_slots.len() > 0 {
            self.has_storage.insert(hashed_address, ());
        }
        proof {
            let after = routed(old(self)@, hashed_address, update@, hashed_slots@);
            assert(self@.accounts =~= after.accounts);
            assert(self@.has_storage =~= after.has_storage);
            assert(self@.codes =~= after.codes);
        }
        let request = ProcessAccount {
            prefix: hashed_address,
            info: if update.removed {
                Some(AccountInfo::empty())
            } else {
                update.info
            },
            storage: if update.removed {
                Vec::new()
            } else {
                hashed_slots
            },
            removed: update.removed,
            removed_storage: update.removed_storage,
        };
        (hashed_address.first_nibble(), request)
    }

    /// The accounts whose storage does not change, by the worker that holds them: their
    /// storage tries need no work.
    pub fn early_batches(&self) -> (batches: Vec<Vec<H256>>)
        ensures
            batches@.len() == 16,
            forall|w: int, h: H256|
                #![trigger batches@[w]@.contains(h)]
                0 <= w < 16 ==> (batches@[w]@.contains(h) <==> self@.accounts.contains(h)
                    && !self@.has_storage.contains(h) && h.nibble() == w),
            forall|w: int| 0 <= w < 16 ==> (#[trigger] batches@[w])@.no_duplicates(),
    {
        let keys = self.accounts.keys();
        let mut batches: Vec<Vec<H256>> = Vec::new();
        let mut n: usize = 0;
        while n < 16
            invariant
                n <= 16,
                batches@.len() == n,
                forall|w: int| 0 <= w < n ==> (#[trigger] batches@[w])@ == Seq::<H256>::empty(),
            decreases 16 - n,
        {
            batches.push(Vec::new());
            n += 1;
        }
        let mut i: usize = 0;
        proof {
            assert(keys@.take(0) =~= Seq::empty());
        }
        while i < keys.len()
            invariant
                i <= keys@.len(),
                keys@.no_duplicates(),
                keys@.to_set() == self@.accounts,
                batches@.len() == 16,
                forall|w: int, h: H256|
                    #![trigger batches@[w]@.contains(h)]
                    0 <= w < 16 ==> (batches@[w]@.contains(h) <==> keys@.take(i as int).contains(h)
                        && !self@.has_storage.contains(h) && h.nibble() == w),
                forall|w: int| 0 <= w < 16 ==> (#[trigger] batches@[w])@.no_duplicates(),
            decreases keys@.len() - i,
        {
            let h = keys[i];
            let ghost before = batches@;
            let ghost at = i as int;
            proof {
                lemma_walk(keys@, at, at + 1);
            }
            let bucket: usize = h.first_nibble() as usize;
            if !self.has_storage.contains_key(h) {
                assert(!before[bucket as int]@.contains(h));
                batches[bucket].push(h);
                proof {
                    let own = batches@[bucket as int]@;
                    assert(own == before[bucket as int]@.push(h));
                    assert forall|x: H256| #[trigger] own.contains(x) <==> before[bucket
                        as int]@.contains(x) || x == h by {
                        if before[bucket as int]@.contains(x) {
                            assert(own[before[bucket as int]@.index_of(x)] == x);
                        }
                        if x == h {
                            assert(own[own.len() - 1] == x);
                        }
                        if own.contains(x) {
                            let j = own.index_of(x);
                            if j < before[bucket as int]@.len() {
                                assert(before[bucket as int]@[j] == x);
                            }
                        }
                    }
                    assert(own.no_duplicates()) by {
                        assert forall|a: int, b: int|
                            0 <= a < own.len() && 0 <= b < own.len() && a != b implies own[a]
                            != own[b] by {
                            let old_own = before[bucket as int]@;
                            if a < old_own.len() {
                                assert(old_own.contains(old_own[a]));
                            }
                            if b < old_own.len() {
                                assert(old_own.contains(old_own[b]));
                            }
                        }
                    }
                }
            }
            i += 1;
            proof {
                assert forall|w: int, x: H256|
                    #![trigger batches@[w]@.contains(x)]
                    0 <= w < 16 implies (batches@[w]@.contains(x) <==> keys@.take(
                    i as int,
                ).contains(x) && !self@.has_storage.contains(x) && x.nibble() == w) by {
                    assert(before[w]@.contains(x) <==> keys@.take(at).contains(x)
                        && !self@.has_storage.contains(x) && x.nibble() == w);
                    if w != bucket {
                        assert(batches@[w] == before[w]);
                    }
                }
                assert forall|w: int| 0 <= w < 16 implies (
                #[trigger] batches@[w])@.no_duplicates() by {
                    if w != bucket {
                        assert(batches@[w] == before[w]);
                    } else {
                        assert(before[w]@.no_duplicates());
                    }
                }
            }
        }
        proof {
            lemma_walk_end(keys@, self@.accounts);
            assert(keys@.take(i as int) =~= keys@.take(keys@.len() as int));
        }
        batches
    }
}

/// Every account whose storage changes is among the accounts that were dealt out.
pub proof fn law_storage_accounts_are_dealt_out(
    router: RouterView,
    hashed_address: H256,
    update: UpdateView,
    hashed_slots: Seq<(H256, U256)>,
)
    requires
        router.has_storage.subset_of(router.accounts),
    ensures
        routed(router, hashed_address, update, hashed_slots).has_storage.subset_of(
            routed(router, hashed_address, update, hashed_slots).accounts,
        ),
{
}

} // verus!
