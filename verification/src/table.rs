//! Hash tables keyed by hashes and addresses.
//!
//! A [`Table`] keeps its keys and values in two parallel vectors and finds a key's
//! position through a hash map of the `rustc-hash` crate. To the contracts it is a
//! mathematical map; the vectors give every walk over it a fixed order.

use rustc_hash::FxBuildHasher;
use std::collections::HashMap;
use vstd::prelude::*;

verus! {

/// The hasher of the `rustc-hash` crate. It carries no state that the contracts
/// could speak of.
#[verifier::external_type_specification]
#[verifier::external_body]
pub struct ExFxBuildHasher(rustc_hash::FxBuildHasher);

/// `rustc_hash::FxHashMap` from the integers that make up a key to a position.
pub type FxIndex = HashMap<(u128, u128), usize, FxBuildHasher>;

/// What can key a [`Table`]: a value that two integers determine.
pub trait TableKey: Copy {
    /// The two integers.
    spec fn code(self) -> (u128, u128);

    fn encode(self) -> (c: (u128, u128))
        ensures
            c == self.code(),
    ;

    /// The integers determine the key.
    proof fn code_injective(a: Self, b: Self)
        ensures
            a.code() == b.code() ==> a == b,
    ;
}

impl TableKey for u64 {
    open spec fn code(self) -> (u128, u128) {
        (0, self as u128)
    }

    fn encode(self) -> (c: (u128, u128)) {
        (0, self as u128)
    }

    proof fn code_injective(a: Self, b: Self) {
    }
}

/// `HashMap::get` on a map with the `rustc-hash` hasher: the value under `key`, and
/// nothing where there is none.
#[verifier::external_body]
fn index_get(index: &FxIndex, key: (u128, u128)) -> (found: Option<usize>)
    ensures
        match found {
            Some(at) => index@.contains_key(key) && index@[key] == at,
            None => !index@.contains_key(key),
        },
{
    index.get(&key).copied()
}

/// `HashMap::insert` on a map with the `rustc-hash` hasher: `key` is mapped to `at`
/// from then on, every other key as before.
#[verifier::external_body]
fn index_insert(index: &mut FxIndex, key: (u128, u128), at: usize)
    ensures
        final(index)@ == old(index)@.insert(key, at),
{
    index.insert(key, at);
}

/// `HashMap::remove` on a map with the `rustc-hash` hasher: `key` is mapped to
/// nothing from then on, every other key as before.
#[verifier::external_body]
fn index_remove(index: &mut FxIndex, key: (u128, u128))
    ensures
        final(index)@ == old(index)@.remove(key),
{
    index.remove(&key);
}

/// A map from keys to values.
#[verifier::reject_recursive_types(K)]
pub struct Table<K: TableKey, V> {
    index: FxIndex,
    keys: Vec<K>,
    values: Vec<V>,
}

impl<K: TableKey, V> View for Table<K, V> {
    type V = Map<K, V>;

    closed spec fn view(&self) -> Map<K, V> {
        Map::new(
            |k: K| self.index@.contains_key(k.code()),
            |k: K| self.values@[self.index@[k.code()] as int],
        )
    }
}

/// The two parallel vectors agree, and the index holds exactly their positions.
spec fn indexes<K: TableKey>(index: Map<(u128, u128), usize>, keys: Seq<K>) -> bool {
    &&& forall|i: int| 0 <= i < keys.len() ==> {
        &&& index.contains_key((#[trigger] keys[i]).code())
        &&& index[keys[i].code()] == i
    }
    &&& forall|c: (u128, u128)| #[trigger] index.contains_key(c) ==> {
        &&& index[c] < keys.len()
        &&& keys[index[c] as int].code() == c
    }
}

impl<K: TableKey, V> Table<K, V> {
    #[verifier::type_invariant]
    spec fn wf(self) -> bool {
        &&& self.keys@.len() == self.values@.len()
        &&& indexes(self.index@, self.keys@)
    }

    pub fn new() -> (t: Self)
        ensures
            t@ == Map::<K, V>::empty(),
    {
        let t = Table { index: FxIndex::default(), keys: Vec::new(), values: Vec::new() };
        assert(t@ =~= Map::<K, V>::empty());
        t
    }

    /// An empty table with room for about `capacity` entries.
    pub fn with_capacity(capacity: usize) -> (t: Self)
        ensures
            t@ == Map::<K, V>::empty(),
    {
        let mut index = FxIndex::default();
        index.reserve(capacity);
        let t = Table {
            index,
            keys: Vec::with_capacity(capacity),
            values: Vec::with_capacity(capacity),
        };
        assert(t@ =~= Map::<K, V>::empty());
        t
    }

    /// The keys of the table, each once, in the order of the walk.
    pub fn keys(&self) -> (keys: &Vec<K>)
        ensures
            keys@.no_duplicates(),
            keys@.to_set() == self@.dom(),
            keys@.len() == self@.dom().len(),
            self@.dom().finite(),
            forall|i: int| 0 <= i < keys@.len() ==> self@.contains_key(#[trigger] keys@[i]),
    {
        proof {
            use_type_invariant(&*self);
            assert forall|k: K| self@.dom().contains(k) implies self.keys@.to_set().contains(
                k,
            ) by {
                let at = self.index@[k.code()] as int;
                K::code_injective(k, self.keys@[at]);
                assert(self.keys@[at] == k);
            }
            assert(self.keys@.to_set() =~= self@.dom());
            self.keys@.unique_seq_to_set();
            vstd::seq_lib::seq_to_set_is_finite(self.keys@);
        }
        &self.keys
    }

    /// The keys of the table, each once, in a vector of their own.
    pub fn key_list(&self) -> (keys: Vec<K>)
        ensures
            keys@.no_duplicates(),
            keys@.to_set() == self@.dom(),
            keys@.len() == self@.dom().len(),
            self@.dom().finite(),
            forall|i: int| 0 <= i < keys@.len() ==> self@.contains_key(#[trigger] keys@[i]),
    {
        let keys = self.keys();
        let mut list: Vec<K> = Vec::new();
        let mut i: usize = 0;
        while i < keys.len()
            invariant
                i <= keys@.len(),
                list@ == keys@.take(i as int),
            decreases keys@.len() - i,
        {
            list.push(keys[i]);
            i += 1;
            assert(keys@.take(i as int) =~= keys@.take(i - 1).push(keys@[i - 1]));
        }
        assert(keys@.take(keys@.len() as int) =~= keys@);
        list
    }

    pub fn is_empty(&self) -> (b: bool)
        ensures
            b == (self@ == Map::<K, V>::empty()),
            b == self@.dom().is_empty(),
    {
        let keys = self.keys();
        proof {
            if keys@.len() == 0 {
                assert(self@ =~= Map::<K, V>::empty());
                assert(self@.dom() =~= Set::<K>::empty());
            } else {
                assert(self@.contains_key(keys@[0]));
            }
        }
        keys.len() == 0
    }

    pub fn len(&self) -> (n: usize)
        ensures
            n == self@.dom().len(),
            self@.dom().finite(),
    {
        self.keys().len()
    }

    pub fn get(&self, k: K) -> (found: Option<&V>)
        ensures
            match found {
                Some(v) => self@.contains_key(k) && *v == self@[k],
                None => !self@.contains_key(k),
            },
    {
        proof {
            use_type_invariant(&*self);
        }
        match index_get(&self.index, k.encode()) {
            Some(at) => Some(&self.values[at]),
            None => None,
        }
    }

    pub fn contains_key(&self, k: K) -> (b: bool)
        ensures
            b == self@.contains_key(k),
    {
        index_get(&self.index, k.encode()).is_some()
    }

    /// The value under `k`, to be changed in place.
    pub fn get_mut(&mut self, k: K) -> (found: Option<&mut V>)
        ensures
            match found {
                Some(v) => old(self)@.contains_key(k) && *v == old(self)@[k] && final(self)@
                    == old(self)@.insert(k, *final(v)),
                None => !old(self)@.contains_key(k) && final(self)@ == old(self)@,
            },
    {
        proof {
            use_type_invariant(&*self);
            assert forall|x: K| #[trigger] x.code() == k.code() implies x == k by {
                K::code_injective(x, k);
            }
        }
        match index_get(&self.index, k.encode()) {
            Some(at) => Some(&mut self.values[at]),
            None => None,
        }
    }

    /// Maps `k` to `v` from now on.
    pub fn insert(&mut self, k: K, v: V)
        ensures
            final(self)@ == old(self)@.insert(k, v),
    {
        proof {
            use_type_invariant(&*self);
            assert forall|x: K| #[trigger] x.code() == k.code() implies x == k by {
                K::code_injective(x, k);
            }
        }
        match index_get(&self.index, k.encode()) {
            Some(at) => {
                self.values[at] = v;
            },
            None => {
                let mut taken = Table::<K, V>::new();
                std::mem::swap(self, &mut taken);
                let Table { mut index, mut keys, mut values } = taken;
                let at: usize = keys.len();
                index_insert(&mut index, k.encode(), at);
                keys.push(k);
                values.push(v);
                *self = Table { index, keys, values };
            },
        }
        assert(self@ =~= old(self)@.insert(k, v));
    }

    /// Takes `k` and its value out of the table.
    pub fn remove(&mut self, k: K) -> (taken: Option<V>)
        ensures
            final(self)@ == old(self)@.remove(k),
            match taken {
                Some(v) => old(self)@.contains_key(k) && v == old(self)@[k],
                None => !old(self)@.contains_key(k),
            },
    {
        proof {
            use_type_invariant(&*self);
            assert forall|x: K| #[trigger] x.code() == k.code() implies x == k by {
                K::code_injective(x, k);
            }
        }
        match index_get(&self.index, k.encode()) {
            Some(at) => {
                let mut whole = Table::<K, V>::new();
                std::mem::swap(self, &mut whole);
                let Table { mut index, mut keys, mut values } = whole;
                let ghost keys0 = keys@;
                let last: usize = keys.len() - 1;
                index_remove(&mut index, k.encode());
                if at != last {
                    index_insert(&mut index, keys[last].encode(), at);
                }
                let _ = keys.swap_remove(at);
                let v = values.swap_remove(at);
                assert(indexes(index@, keys@)) by {
                    assert forall|i: int| 0 <= i < keys@.len() implies {
                        &&& index@.contains_key((#[trigger] keys@[i]).code())
                        &&& index@[keys@[i].code()] == i
                    } by {
                        if i == at {
                            assert(keys@[i] == keys0[last as int]);
                        } else {
                            assert(keys@[i] == keys0[i]);
                        }
                    }
                }
                *self = Table { index, keys, values };
                assert(self@ =~= old(self)@.remove(k));
                Some(v)
            },
            None => {
                assert(self@ =~= old(self)@.remove(k));
                None
            },
        }
    }

    /// Takes every entry out of the table.
    pub fn clear(&mut self)
        ensures
            final(self)@ == Map::<K, V>::empty(),
    {
        *self = Table::new();
    }
}

/// A walk over distinct keys meets the next key for the first time.
pub proof fn lemma_walk<K>(keys: Seq<K>, i: int, n: int)
    requires
        0 <= i < keys.len(),
        n == i + 1,
        keys.no_duplicates(),
    ensures
        !keys.take(i).contains(keys[i]),
        forall|k: K| #[trigger]
            keys.take(n).contains(k) == (keys.take(i).contains(k) || k == keys[i]),
{
    let next = keys.take(n);
    let done = keys.take(i);
    if done.contains(keys[i]) {
        let j = done.index_of(keys[i]);
        assert(keys[j] == keys[i]);
    }
    assert forall|k: K| #[trigger] next.contains(k) == (done.contains(k) || k == keys[i]) by {
        if done.contains(k) {
            let j = done.index_of(k);
            assert(next[j] == k);
        }
        if k == keys[i] {
            assert(next[i] == k);
        }
        if next.contains(k) {
            let j = next.index_of(k);
            if j < i {
                assert(done[j] == k);
            }
        }
    }
}

/// A walk to the end has met every key.
pub proof fn lemma_walk_end<K>(keys: Seq<K>, dom: Set<K>)
    requires
        keys.to_set() == dom,
    ensures
        forall|k: K| #[trigger] keys.take(keys.len() as int).contains(k) == dom.contains(k),
{
    assert(keys.take(keys.len() as int) =~= keys);
    assert forall|k: K| #[trigger] keys.contains(k) == dom.contains(k) by {
        assert(keys.to_set().contains(k) == dom.contains(k));
    }
}

/// What can be copied, up to its view.
pub trait Duplicate: View + Sized {
    fn duplicate(&self) -> (d: Self)
        ensures
            d@ == self@,
    ;
}

impl<K: TableKey, V: Duplicate> Table<K, V> {
    /// A second table with copies of the entries.
    pub fn duplicate_entries(&self) -> (t: Self)
        ensures
            t@.dom() == self@.dom(),
            forall|k: K| #[trigger] t@.contains_key(k) ==> t@[k]@ == self@[k]@,
    {
        let keys = self.keys();
        let mut t = Table::<K, V>::new();
        let mut i: usize = 0;
        while i < keys.len()
            invariant
                i <= keys@.len(),
                keys@.to_set() == self@.dom(),
                forall|j: int| 0 <= j < keys@.len() ==> self@.contains_key(#[trigger] keys@[j]),
                forall|k: K| #[trigger]
                    t@.contains_key(k) <==> exists|j: int| 0 <= j < i && keys@[j] == k,
                forall|k: K| #[trigger] t@.contains_key(k) ==> t@[k]@ == self@[k]@,
            decreases keys@.len() - i,
        {
            let k = keys[i];
            assert(self@.contains_key(keys@[i as int]));
            match self.get(k) {
                Some(v) => {
                    t.insert(k, v.duplicate());
                },
                None => {},
            }
            i += 1;
            assert forall|x: K| #[trigger] t@.contains_key(x) implies exists|j: int|
                0 <= j < i && keys@[j] == x by {
                if x == k {
                    assert(keys@[i - 1] == x);
                }
            }
        }
        assert(t@.dom() =~= self@.dom()) by {
            assert forall|k: K| t@.contains_key(k) <==> self@.contains_key(k) by {
                if self@.contains_key(k) {
                    assert(keys@.to_set().contains(k));
                    let j = choose|j: int| 0 <= j < keys@.len() && keys@[j] == k;
                    assert(keys@[j] == k);
                }
            }
        }
        t
    }
}

impl<K: TableKey, V: Copy> Table<K, V> {
    /// Puts the entries of `other` into the table, over those with the same key.
    pub fn extend_from(&mut self, other: &Table<K, V>)
        ensures
            final(self)@ == old(self)@.union_prefer_right(other@),
    {
        let keys = other.keys();
        let mut i: usize = 0;
        while i < keys.len()
            invariant
                i <= keys@.len(),
                keys@.no_duplicates(),
                keys@.to_set() == other@.dom(),
                forall|j: int| 0 <= j < keys@.len() ==> other@.contains_key(#[trigger] keys@[j]),
                forall|k: K| #[trigger]
                    self@.contains_key(k) <==> old(self)@.contains_key(k) || keys@.take(
                        i as int,
                    ).contains(k),
                forall|k: K| #[trigger]
                    self@.contains_key(k) ==> self@[k] == if keys@.take(i as int).contains(k) {
                        other@[k]
                    } else {
                        old(self)@[k]
                    },
            decreases keys@.len() - i,
        {
            let k = keys[i];
            let ghost before = self@;
            assert(other@.contains_key(keys@[i as int]));
            match other.get(k) {
                Some(v) => {
                    self.insert(k, *v);
                },
                None => {},
            }
            let ghost at = i as int;
            i += 1;
            proof {
                lemma_walk(keys@, at, i as int);
                assert(self@ == before.insert(k, other@[k]));
                assert forall|x: K| #[trigger]
                    self@.contains_key(x) implies self@[x] == if keys@.take(i as int).contains(
                    x,
                ) {
                    other@[x]
                } else {
                    old(self)@[x]
                } by {
                    if x != k {
                        assert(before.contains_key(x));
                    }
                }
                assert forall|x: K| #[trigger]
                    self@.contains_key(x) <==> old(self)@.contains_key(x) || keys@.take(
                        i as int,
                    ).contains(x) by {
                    assert(before.contains_key(x) <==> old(self)@.contains_key(x) || keys@.take(
                        at,
                    ).contains(x));
                }
            }
        }
        proof {
            lemma_walk_end(keys@, other@.dom());
            assert(self@ =~= old(self)@.union_prefer_right(other@));
        }
    }
}

impl<K: TableKey, V: Copy> Duplicate for Table<K, V> {
    /// A second table with the same entries.
    fn duplicate(&self) -> (t: Self) {
        let keys = self.keys();
        let mut t = Table::<K, V>::new();
        let mut i: usize = 0;
        while i < keys.len()
            invariant
                i <= keys@.len(),
                keys@.to_set() == self@.dom(),
                forall|j: int| 0 <= j < keys@.len() ==> self@.contains_key(#[trigger] keys@[j]),
                forall|k: K| #[trigger]
                    t@.contains_key(k) <==> exists|j: int| 0 <= j < i && keys@[j] == k,
                forall|k: K| #[trigger] t@.contains_key(k) ==> t@[k] == self@[k],
            decreases keys@.len() - i,
        {
            let k = keys[i];
            assert(self@.contains_key(keys@[i as int]));
            match self.get(k) {
                Some(v) => {
                    t.insert(k, *v);
                },
                None => {},
            }
            i += 1;
            assert forall|x: K| #[trigger] t@.contains_key(x) implies exists|j: int|
                0 <= j < i && keys@[j] == x by {
                if x == k {
                    assert(keys@[i - 1] == x);
                }
            }
        }
        assert(t@ =~= self@) by {
            assert forall|k: K| t@.contains_key(k) <==> self@.contains_key(k) by {
                if self@.contains_key(k) {
                    assert(keys@.to_set().contains(k));
                    let j = choose|j: int| 0 <= j < keys@.len() && keys@[j] == k;
                    assert(keys@[j] == k);
                }
            }
        }
        t
    }
}

} // verus!
