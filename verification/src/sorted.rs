use vstd::prelude::*;

use crate::into_iter::IntoIter;

verus! {

/// Holds when the values never decrease from left to right.
pub open spec fn sorted_seq(s: Seq<i64>) -> bool {
    forall|a: int, b: int| 0 <= a < b < s.len() ==> s[a] <= s[b]
}

/// An extension trait that provides the [`sorted`] method for sources of
/// machine integers.
///
/// [`sorted`]: IterSorted::sorted
pub trait IterSorted: View<V = Seq<i64>> + Sized {
    /// Whether the source is in a fit state to be drawn from.
    spec fn sorted_ready(&self) -> bool;

    /// Sorts the source's values, handing them back as a cursor over the
    /// same values in never-decreasing order.
    fn sorted(self) -> (r: IntoIter<i64>)
        requires
            self.sorted_ready(),
        ensures
            r.wf(),
            sorted_seq(r@),
            r@.to_multiset() == self@.to_multiset(),
    ;
}

impl IterSorted for IntoIter<i64> {
    open spec fn sorted_ready(&self) -> bool {
        self.wf()
    }

    fn sorted(self) -> (r: IntoIter<i64>) {
        let v = self.as_slice();
        sorted(v)
    }
}

/// Inserting a value anywhere in a sequence adds exactly that value to its
/// multiset of elements.
proof fn lemma_insert_to_multiset(s: Seq<i64>, i: int, a: i64)
    requires
        0 <= i <= s.len(),
    ensures
        s.insert(i, a).to_multiset() == s.to_multiset().insert(a),
{
    broadcast use vstd::seq_lib::group_to_multiset_ensures;

    let s2 = s.insert(i, a);
    s.insert_ensures(i, a);
    assert(s2.remove(i) =~= s);
    assert(s2.to_multiset().remove(a) =~= s.to_multiset());
    assert(s2.contains(a)) by {
        assert(s2[i] == a);
    }
    assert(s2.to_multiset().count(a) > 0);
    assert(s2.to_multiset() =~= s.to_multiset().insert(a));
}

/// Sorts the values, handing them back as a cursor: the result yields the
/// same values as a multiset, in never-decreasing order. The sort is by
/// insertion into an already-sorted prefix.
pub fn sorted(v: Vec<i64>) -> (r: IntoIter<i64>)
    ensures
        r.wf(),
        sorted_seq(r@),
        r@.to_multiset() == v@.to_multiset(),
{
    let mut out: Vec<i64> = Vec::new();
    let mut i: usize = 0;
    proof {
        assert(v@.take(0) =~= out@);
    }
    while i < v.len()
        invariant
            i <= v@.len(),
            sorted_seq(out@),
            out@.to_multiset() == v@.take(i as int).to_multiset(),
        decreases v@.len() - i,
    {
        let x = v[i];
        let mut j: usize = 0;
        while j < out.len() && out[j] <= x
            invariant
                j <= out@.len(),
                forall|t: int| 0 <= t < j ==> out@[t] <= x,
            decreases out@.len() - j,
        {
            j = j + 1;
        }
        let ghost pre = out@;
        out.insert(j, x);
        proof {
            pre.insert_ensures(j as int, x);
            assert(sorted_seq(out@));
            lemma_insert_to_multiset(pre, j as int, x);
            broadcast use vstd::seq_lib::group_to_multiset_ensures;
            assert(v@.take(i + 1) =~= v@.take(i as int).push(v@[i as int]));
            assert(out@.to_multiset() == v@.take(i + 1).to_multiset());
        }
        i = i + 1;
    }
    proof {
        assert(v@.take(v@.len() as int) =~= v@);
    }
    IntoIter::new(out)
}

} // verus!
