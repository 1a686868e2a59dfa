//! Ascending sort of 32-bit values.
use vstd::prelude::*;
use vstd::relations::{sorted_by, total_ordering};
use vstd::seq_lib::{group_to_multiset_ensures, lemma_sorted_unique};

verus! {

/// The order in which values are sorted.
pub open spec fn ascending_order() -> spec_fn(u32, u32) -> bool {
    |a: u32, b: u32| a <= b
}

/// `values` in ascending order: the one ascending sequence that holds the
/// same values, each as often.
pub open spec fn ascending(values: Seq<u32>) -> Seq<u32> {
    values.sort_by(ascending_order())
}

/// Every element of `s` is at most its successors.
pub open spec fn is_ascending(s: Seq<u32>) -> bool {
    forall|i: int, j: int| 0 <= i < j < s.len() ==> s[i] <= s[j]
}

proof fn lemma_ascending_order_total()
    ensures
        total_ordering(ascending_order()),
{
}

/// A sequence is the ascending form of another when it is ascending and
/// holds the same values as often.
pub proof fn lemma_ascending_unique(sorted: Seq<u32>, values: Seq<u32>)
    requires
        is_ascending(sorted),
        sorted.to_multiset() == values.to_multiset(),
    ensures
        sorted == ascending(values),
{
    lemma_ascending_order_total();
    values.lemma_sort_by_ensures(ascending_order());
    assert(sorted_by(sorted, ascending_order()));
    lemma_sorted_unique(sorted, ascending(values), ascending_order());
}

/// Sorting yields an ascending sequence that holds the same values, each as
/// often as before.
pub proof fn lemma_ascending_ensures(values: Seq<u32>)
    ensures
        is_ascending(ascending(values)),
        ascending(values).to_multiset() == values.to_multiset(),
        ascending(values).len() == values.len(),
{
    broadcast use group_to_multiset_ensures;

    lemma_ascending_order_total();
    values.lemma_sort_by_ensures(ascending_order());
    let s = ascending(values);
    assert forall|i: int, j: int| 0 <= i < j < s.len() implies s[i] <= s[j] by {
        assert(ascending_order()(s[i], s[j]));
    }
    assert(s.to_multiset().len() == s.len());
    assert(values.to_multiset().len() == values.len());
}

/// Exchanging two neighbours keeps the same values, each as often.
proof fn lemma_swap_neighbours_multiset(s: Seq<u32>, j: int)
    requires
        0 < j < s.len(),
    ensures
        s.update(j - 1, s[j]).update(j, s[j - 1]).to_multiset() == s.to_multiset(),
{
    broadcast use vstd::multiset::group_multiset_axioms;

    let t = s.update(j - 1, s[j]).update(j, s[j - 1]);
    let p = s.subrange(0, j - 1);
    let q = s.subrange(j + 1, s.len() as int);
    let ab = seq![s[j - 1], s[j]];
    let ba = seq![s[j], s[j - 1]];
    assert(s =~= p + ab + q);
    assert(t =~= p + ba + q);
    vstd::seq_lib::lemma_multiset_commutative(p + ab, q);
    vstd::seq_lib::lemma_multiset_commutative(p, ab);
    vstd::seq_lib::lemma_multiset_commutative(p + ba, q);
    vstd::seq_lib::lemma_multiset_commutative(p, ba);
    assert(ab =~= seq![s[j - 1]].push(s[j]));
    assert(ba =~= seq![s[j]].push(s[j - 1]));
    vstd::seq_lib::to_multiset_build(seq![s[j - 1]], s[j]);
    vstd::seq_lib::to_multiset_build(seq![s[j]], s[j - 1]);
    vstd::seq_lib::to_multiset_build(Seq::<u32>::empty(), s[j]);
    vstd::seq_lib::to_multiset_build(Seq::<u32>::empty(), s[j - 1]);
    assert(seq![s[j - 1]] =~= Seq::<u32>::empty().push(s[j - 1]));
    assert(seq![s[j]] =~= Seq::<u32>::empty().push(s[j]));
    assert(ab.to_multiset() =~= ba.to_multiset());
}

/// Sorts `values` in ascending order, in place.
pub fn sort_ascending(values: &mut Vec<u32>)
    ensures
        final(values)@ == ascending(old(values)@),
{
    let n = values.len();
    let ghost original = values@;
    let mut i: usize = 0;
    while i < n
        invariant
            n == values@.len(),
            i <= n,
            values@.to_multiset() == original.to_multiset(),
            forall|a: int, b: int| 0 <= a < b < i ==> values@[a] <= values@[b],
        decreases n - i,
    {
        let mut j = i;
        while j > 0 && values[j - 1] > values[j]
            invariant
                n == values@.len(),
                j <= i < n,
                values@.to_multiset() == original.to_multiset(),
                forall|a: int, b: int| 0 <= a < b <= i && b != j ==> values@[a] <= values@[b],
            decreases j,
        {
            let ghost before = values@;
            let left = values[j - 1];
            let right = values[j];
            values.set(j - 1, right);
            values.set(j, left);
            proof {
                lemma_swap_neighbours_multiset(before, j as int);
                assert(values@ == before.update(j - 1, before[j as int]).update(
                    j as int,
                    before[j - 1],
                ));
                assert forall|a: int, b: int| 0 <= a < b <= i && b != j - 1 implies values@[a]
                    <= values@[b] by {
                    if a == j - 1 && b == j {
                    } else if a == j - 1 {
                        assert(values@[a] == before[j as int]);
                        assert(values@[b] == before[b]);
                    } else if a == j {
                        assert(values@[a] == before[j - 1]);
                        assert(values@[b] == before[b]);
                    } else if b == j {
                        assert(values@[b] == before[j - 1]);
                        assert(values@[a] == before[a]);
                    } else {
                        assert(values@[a] == before[a]);
                        assert(values@[b] == before[b]);
                    }
                }
            }
            j = j - 1;
        }
        proof {
            assert forall|a: int, b: int| 0 <= a < b < i + 1 implies values@[a] <= values@[b] by {
                if b == j && a < j {
                    assert(values@[a] <= values@[j - 1]);
                }
            }
        }
        i = i + 1;
    }
    proof {
        assert(is_ascending(values@));
        lemma_ascending_unique(values@, original);
    }
}

} // verus!
