//! Sorting.

use vstd::prelude::*;

verus! {

/// What can be sorted: values with a rank, the lowest first.
pub trait Ranked: Sized {
    spec fn rank(self) -> int;

    /// Whether `self` ranks at most as `other`.
    fn ranks_at_most(&self, other: &Self) -> (b: bool)
        ensures
            b == (self.rank() <= other.rank()),
    ;
}

/// No value stands behind one with a higher rank.
pub open spec fn ordered<T: Ranked>(list: Seq<T>) -> bool {
    forall|i: int, j: int|
        0 <= i <= j < list.len() ==> (#[trigger] list[i]).rank() <= (#[trigger] list[j]).rank()
}

/// The ordered list with one more value, behind all that rank at most as it.
pub open spec fn placed<T: Ranked>(list: Seq<T>, value: T) -> Seq<T>
    decreases list.len(),
{
    if list.len() == 0 || list.last().rank() <= value.rank() {
        list.push(value)
    } else {
        placed(list.drop_last(), value).push(list.last())
    }
}

/// The list in order. Values of equal rank keep the order that they had.
pub open spec fn sorted<T: Ranked>(list: Seq<T>) -> Seq<T>
    decreases list.len(),
{
    if list.len() == 0 {
        list
    } else {
        placed(sorted(list.drop_last()), list.last())
    }
}

proof fn lemma_placed<T: Ranked>(list: Seq<T>, value: T)
    requires
        ordered(list),
    ensures
        placed(list, value).len() == list.len() + 1,
        ordered(placed(list, value)),
        placed(list, value).to_multiset() == list.to_multiset().insert(value),
        forall|x: T| #[trigger]
            placed(list, value).contains(x) ==> list.contains(x) || x == value,
    decreases list.len(),
{
    broadcast use vstd::seq_lib::group_to_multiset_ensures;

    let after = placed(list, value);
    if list.len() == 0 || list.last().rank() <= value.rank() {
        assert forall|i: int, j: int| 0 <= i <= j < after.len() implies (
        #[trigger] after[i]).rank() <= (#[trigger] after[j]).rank() by {
            if j == list.len() && i < j {
                assert(list[i].rank() <= list.last().rank());
            }
        }
        assert forall|x: T| #[trigger] after.contains(x) implies list.contains(x) || x == value by {
            let i = after.index_of(x);
            if i < list.len() {
                assert(list[i] == x);
            }
        }
    } else {
        let rest = list.drop_last();
        lemma_placed(rest, value);
        let inner = placed(rest, value);
        assert(list =~= rest.push(list.last()));
        assert(list.to_multiset() =~= rest.to_multiset().insert(list.last()));
        assert(after.to_multiset() =~= inner.to_multiset().insert(list.last()));
        assert(after.to_multiset() =~= list.to_multiset().insert(value));
        assert forall|x: T| #[trigger] inner.contains(x) implies x.rank()
            <= list.last().rank() by {
            if rest.contains(x) {
                let i = rest.index_of(x);
                assert(list[i] == x);
            }
        }
        assert forall|i: int, j: int| 0 <= i <= j < after.len() implies (
        #[trigger] after[i]).rank() <= (#[trigger] after[j]).rank() by {
            if j == inner.len() && i < j {
                assert(inner.contains(inner[i]));
            } else if j < inner.len() {
                assert(inner[i].rank() <= inner[j].rank());
            }
        }
        assert forall|x: T| #[trigger] after.contains(x) implies list.contains(x) || x == value by {
            let i = after.index_of(x);
            if i < inner.len() {
                assert(inner.contains(inner[i]));
                if rest.contains(x) {
                    assert(list[rest.index_of(x)] == x);
                }
            } else {
                assert(list[list.len() - 1] == x);
            }
        }
    }
}

/// Sorting orders a list and neither loses nor adds a value.
pub proof fn law_sorted_is_an_ordered_permutation<T: Ranked>(list: Seq<T>)
    ensures
        ordered(sorted(list)),
        sorted(list).len() == list.len(),
        sorted(list).to_multiset() == list.to_multiset(),
    decreases list.len(),
{
    broadcast use vstd::seq_lib::group_to_multiset_ensures;

    if list.len() > 0 {
        law_sorted_is_an_ordered_permutation(list.drop_last());
        lemma_placed(sorted(list.drop_last()), list.last());
        assert(list =~= list.drop_last().push(list.last()));
    }
}

/// Where a value is placed: behind the first `at` values.
proof fn lemma_placed_at<T: Ranked>(list: Seq<T>, value: T, at: int)
    requires
        0 <= at <= list.len(),
        forall|i: int| 0 <= i < at ==> (#[trigger] list[i]).rank() <= value.rank(),
        forall|i: int| at <= i < list.len() ==> (#[trigger] list[i]).rank() > value.rank(),
    ensures
        placed(list, value) == list.insert(at, value),
    decreases list.len(),
{
    if list.len() == 0 || list.last().rank() <= value.rank() {
        assert(at == list.len());
        assert(list.push(value) =~= list.insert(at, value));
    } else {
        let rest = list.drop_last();
        lemma_placed_at(rest, value, at);
        assert(rest.insert(at, value).push(list.last()) =~= list.insert(at, value));
    }
}

/// Sorts a list. Values of equal rank keep the order that they had.
pub fn sort<T: Ranked + Copy>(list: &Vec<T>) -> (out: Vec<T>)
    ensures
        out@ == sorted(list@),
        ordered(out@),
        out@.to_multiset() == list@.to_multiset(),
{
    let mut out: Vec<T> = Vec::new();
    let mut i: usize = 0;
    proof {
        assert(list@.take(0) =~= Seq::empty());
    }
    while i < list.len()
        invariant
            i <= list@.len(),
            out@ == sorted(list@.take(i as int)),
        decreases list@.len() - i,
    {
        let value = list[i];
        proof {
            law_sorted_is_an_ordered_permutation(list@.take(i as int));
        }
        let mut low: usize = 0;
        let mut high: usize = out.len();
        while low < high
            invariant
                low <= high <= out@.len(),
                ordered(out@),
                forall|j: int| 0 <= j < low ==> (#[trigger] out@[j]).rank() <= value.rank(),
                forall|j: int|
                    high <= j < out@.len() ==> (#[trigger] out@[j]).rank() > value.rank(),
            decreases high - low,
        {
            let mid: usize = low + (high - low) / 2;
            if out[mid].ranks_at_most(&value) {
                low = mid + 1;
            } else {
                high = mid;
            }
        }
        proof {
            lemma_placed_at(out@, value, low as int);
        }
        out.insert(low, value);
        i += 1;
        proof {
            assert(list@.take(i as int).drop_last() =~= list@.take(i - 1));
            assert(list@.take(i as int).last() == value);
        }
    }
    proof {
        assert(list@.take(i as int) =~= list@);
        law_sorted_is_an_ordered_permutation(list@);
    }
    out
}

/// Whether values of equal rank are the same value.
pub open spec fn told_by_rank<T: Ranked>(list: Seq<T>) -> bool {
    forall|x: T, y: T|
        #![trigger list.contains(x), list.contains(y)]
        list.contains(x) && list.contains(y) && x.rank() == y.rank() ==> x == y
}

proof fn lemma_ordered_permutations<T: Ranked>(a: Seq<T>, b: Seq<T>)
    requires
        ordered(a),
        ordered(b),
        a.to_multiset() == b.to_multiset(),
        told_by_rank(a),
    ensures
        a == b,
    decreases a.len(),
{
    broadcast use vstd::seq_lib::group_to_multiset_ensures;

    assert(a.len() == a.to_multiset().len());
    assert(b.len() == b.to_multiset().len());
    if a.len() == 0 {
        assert(a =~= b);
    } else {
        let x = a.last();
        let y = b.last();
        assert(a.contains(x)) by {
            assert(a[a.len() - 1] == x);
        }
        assert(b.contains(y)) by {
            assert(b[b.len() - 1] == y);
        }
        assert(a.to_multiset().count(y) > 0);
        assert(b.to_multiset().count(x) > 0);
        assert(a.contains(y));
        assert(b.contains(x));
        assert(a[a.index_of(y)] == y);
        assert(b[b.index_of(x)] == x);
        assert(x == y);
        let rest_a = a.drop_last();
        let rest_b = b.drop_last();
        assert(a =~= rest_a.push(x));
        assert(b =~= rest_b.push(x));
        assert(a.to_multiset() =~= rest_a.to_multiset().insert(x));
        assert(b.to_multiset() =~= rest_b.to_multiset().insert(x));
        assert(rest_a.to_multiset() =~= a.to_multiset().remove(x));
        assert(rest_b.to_multiset() =~= b.to_multiset().remove(x));
        assert forall|u: T, v: T|
            #![trigger rest_a.contains(u), rest_a.contains(v)]
            rest_a.contains(u) && rest_a.contains(v) && u.rank() == v.rank() implies u == v by {
            assert(a[rest_a.index_of(u)] == u);
            assert(a[rest_a.index_of(v)] == v);
            assert(a.contains(u) && a.contains(v));
        }
        lemma_ordered_permutations(rest_a, rest_b);
    }
}

/// Two orders of the same values are sorted into the same list, where no two values that
/// differ have the same rank.
pub proof fn law_sorting_forgets_the_order<T: Ranked>(a: Seq<T>, b: Seq<T>)
    requires
        a.to_multiset() == b.to_multiset(),
        told_by_rank(a),
    ensures
        sorted(a) == sorted(b),
{
    broadcast use vstd::seq_lib::group_to_multiset_ensures;

    law_sorted_is_an_ordered_permutation(a);
    law_sorted_is_an_ordered_permutation(b);
    let list = sorted(a);
    assert forall|x: T, y: T|
        #![trigger list.contains(x), list.contains(y)]
        list.contains(x) && list.contains(y) && x.rank() == y.rank() implies x == y by {
        assert(list.to_multiset().count(x) > 0 && list.to_multiset().count(y) > 0);
        assert(a.to_multiset().count(x) > 0 && a.to_multiset().count(y) > 0);
        assert(a.contains(x) && a.contains(y));
    }
    lemma_ordered_permutations(sorted(a), sorted(b));
}

/// A list that is in order is sorted.
pub proof fn law_ordered_list_is_sorted<T: Ranked>(list: Seq<T>)
    requires
        ordered(list),
    ensures
        sorted(list) == list,
    decreases list.len(),
{
    if list.len() > 0 {
        let rest = list.drop_last();
        law_ordered_list_is_sorted(rest);
        if rest.len() > 0 {
            assert(list[list.len() - 2].rank() <= list[list.len() - 1].rank());
        }
        assert(rest.push(list.last()) =~= list);
    }
}

} // verus!
