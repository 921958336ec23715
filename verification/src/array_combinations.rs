use vstd::prelude::*;

use crate::generic_combinations::GenericCombinations;
use crate::generic_combinations::combi_successor;
use crate::generic_combinations::identity_indices;
use crate::generic_combinations::lex_less;
use crate::generic_combinations::reps_successor;
use crate::generic_combinations::maximal_indices;
use crate::generic_combinations::saturated_indices;
use crate::generic_combinations::picked_at;
use crate::generic_combinations::strictly_increasing;
use crate::generic_combinations::zero_indices;
use crate::into_iter::IntoIter;

verus! {

/// An extension trait that provides the [`array_combinations`] and
/// [`array_combinations_with_reps`] methods for sources.
///
/// [`array_combinations`]: IterArrayCombinations::array_combinations
/// [`array_combinations_with_reps`]: IterArrayCombinations::array_combinations_with_reps
pub trait IterArrayCombinations<T: Copy>: View<V = Seq<T>> + Sized {
    /// Whether the source is in a fit state to be adapted.
    spec fn array_combinations_ready(&self) -> bool;

    /// Returns an adaptor over the `k`-element block combinations of the
    /// source's elements. Elements are pulled only as selections need them.
    fn array_combinations(self, k: usize) -> (r: ArrayCombinations<T>)
        requires
            self.array_combinations_ready(),
            k >= 1,
        ensures
            r.wf(),
            r.k() == k,
            r.pool().len() == 0,
            r.pending() == self@,
            r.is_first(),
    ;

    /// Returns an adaptor over the `k`-element block selections with
    /// repetition of the source's elements.
    fn array_combinations_with_reps(self, k: usize) -> (r: ArrayCombinationsWithReps<T>)
        requires
            self.array_combinations_ready(),
            k >= 1,
        ensures
            r.wf(),
            r.k() == k,
            r.pool().len() == 0,
            r.upcoming() == self@,
            !r.is_done(),
            r.is_first(),
    ;
}

impl<T: Copy> IterArrayCombinations<T> for IntoIter<T> {
    open spec fn array_combinations_ready(&self) -> bool {
        self.wf()
    }

    fn array_combinations(self, k: usize) -> (r: ArrayCombinations<T>) {
        ArrayCombinations::new(self, k)
    }

    fn array_combinations_with_reps(self, k: usize) -> (r: ArrayCombinationsWithReps<T>) {
        ArrayCombinationsWithReps::new(self, k)
    }
}

/// An extension trait that provides the [`array_with_reps`] method alone,
/// for callers that want only block selections with repetition.
///
/// [`array_with_reps`]: IterArrayCombinationsWithReps::array_with_reps
pub trait IterArrayCombinationsWithReps<T: Copy>: View<V = Seq<T>> + Sized {
    /// Whether the source is in a fit state to be adapted.
    spec fn array_reps_ready(&self) -> bool;

    /// Returns an adaptor over the `k`-element block selections with
    /// repetition of the source's elements.
    fn array_with_reps(self, k: usize) -> (r: ArrayCombinationsWithReps<T>)
        requires
            self.array_reps_ready(),
            k >= 1,
        ensures
            r.wf(),
            r.k() == k,
            r.pool().len() == 0,
            r.upcoming() == self@,
            !r.is_done(),
            r.is_first(),
    ;
}

impl<T: Copy> IterArrayCombinationsWithReps<T> for IntoIter<T> {
    open spec fn array_reps_ready(&self) -> bool {
        self.wf()
    }

    fn array_with_reps(self, k: usize) -> (r: ArrayCombinationsWithReps<T>) {
        ArrayCombinationsWithReps::new(self, k)
    }
}

/// An adaptor that steps through every `k`-element combination of the
/// source's elements, emitted as fixed-size blocks in the order the elements
/// are produced.
#[derive(Debug)]
pub struct ArrayCombinations<T>(GenericCombinations<T>);

impl<T: Copy> ArrayCombinations<T> {
    /// The adaptor stays well formed and never finishes for good on its own
    /// account: exhaustion only reflects the source running out.
    pub closed spec fn wf(&self) -> bool {
        &&& self.0.wf_combi()
        &&& !self.0.is_done()
    }

    /// How many elements each emitted combination holds.
    pub closed spec fn k(&self) -> nat {
        self.0.k()
    }

    /// The elements pulled from the source so far, in production order.
    pub closed spec fn pool(&self) -> Seq<T> {
        self.0.pool()
    }

    /// The elements the source still holds.
    pub closed spec fn upcoming(&self) -> Seq<T> {
        self.0.upcoming()
    }

    /// Every element the adaptor still owns, pooled or not yet pulled.
    pub open spec fn pending(&self) -> Seq<T> {
        self.pool() + self.upcoming()
    }

    /// The index selection behind the combination emitted last.
    pub closed spec fn indices(&self) -> Seq<usize> {
        self.0.indices()
    }

    /// Whether the adaptor has yet to emit its first combination.
    pub closed spec fn is_first(&self) -> bool {
        self.0.is_first()
    }

    /// Wraps a source for `k`-element block combinations without repetition.
    pub fn new(iter: IntoIter<T>, k: usize) -> (r: Self)
        requires
            iter.wf(),
            k >= 1,
        ensures
            r.wf(),
            r.k() == k,
            r.pool().len() == 0,
            r.pending() == iter@,
            r.is_first(),
            identity_indices(r.indices()),
            r.indices().len() == k,
    {
        let mut comb: Vec<usize> = Vec::new();
        let mut i: usize = 0;
        while i < k
            invariant
                i <= k,
                comb@.len() == i,
                forall|a: int| 0 <= a < i ==> comb@[a] == a,
            decreases k - i,
        {
            comb.push(i);
            i = i + 1;
        }
        ArrayCombinations(GenericCombinations::new(iter, comb))
    }

    /// Hands back the next combination: `k` elements picked from the pool at
    /// strictly increasing positions. Exhaustion means the source has run
    /// out and the pooled elements admit no later selection.
    pub fn next(&mut self) -> (r: Option<Vec<T>>)
        requires
            old(self).wf(),
        ensures
            final(self).wf(),
            final(self).k() == old(self).k(),
            final(self).pending() == old(self).pending(),
            r matches Some(out) ==> {
                &&& out@.len() == old(self).k()
                &&& strictly_increasing(final(self).indices())
                &&& picked_at(final(self).pool(), final(self).indices(), out@)
            },
            old(self).is_first() && r is Some ==> final(self).indices() == old(self).indices(),
            !old(self).is_first() && r is Some ==> lex_less(
                old(self).indices(),
                final(self).indices(),
            ) && combi_successor(
                old(self).indices(),
                final(self).indices(),
                final(self).pool().len() as int,
            ),
            old(self).is_first() ==> ((r is Some) <==> old(self).pending().len() >= old(self).k()),
            !old(self).is_first() ==> ((r is None) <==> (old(self).upcoming().len() == 0
                && maximal_indices(old(self).indices(), old(self).pool().len() as int))),
            r is None ==> final(self).upcoming().len() == 0,
    {
        self.0.fill_next()
    }
}

impl<T: Copy> Clone for ArrayCombinations<T> {
    /// Copies the adaptor; the copy steps through the remaining combinations
    /// independently.
    fn clone(&self) -> (r: Self)
        ensures
            self.wf() ==> {
                &&& r.wf()
                &&& r.k() == self.k()
                &&& r.pool() == self.pool()
                &&& r.upcoming() == self.upcoming()
                &&& r.indices() == self.indices()
            },
    {
        ArrayCombinations(self.0.clone())
    }
}

/// An adaptor that steps through every `k`-element selection with repetition
/// of the source's elements, emitted as fixed-size blocks with the rightmost
/// position varying fastest.
#[derive(Debug)]
pub struct ArrayCombinationsWithReps<T>(GenericCombinations<T>);

impl<T: Copy> ArrayCombinationsWithReps<T> {
    /// Well-formedness, inherited from the engine.
    pub closed spec fn wf(&self) -> bool {
        self.0.wf_reps()
    }

    /// How many elements each emitted selection holds.
    pub closed spec fn k(&self) -> nat {
        self.0.k()
    }

    /// The elements pulled from the source so far, in production order.
    pub closed spec fn pool(&self) -> Seq<T> {
        self.0.pool()
    }

    /// The elements the source still holds.
    pub closed spec fn upcoming(&self) -> Seq<T> {
        self.0.upcoming()
    }

    /// The index selection behind the selection emitted last.
    pub closed spec fn indices(&self) -> Seq<usize> {
        self.0.indices()
    }

    /// Whether the adaptor has yet to emit its first selection.
    pub closed spec fn is_first(&self) -> bool {
        self.0.is_first()
    }

    /// Whether the adaptor has finished for good.
    pub closed spec fn is_done(&self) -> bool {
        self.0.is_done()
    }

    /// Wraps a source for `k`-element block selections with repetition.
    pub fn new(iter: IntoIter<T>, k: usize) -> (r: Self)
        requires
            iter.wf(),
            k >= 1,
        ensures
            r.wf(),
            r.k() == k,
            r.pool().len() == 0,
            r.upcoming() == iter@,
            !r.is_done(),
            r.is_first(),
            zero_indices(r.indices()),
            r.indices().len() == k,
    {
        let comb: Vec<usize> = vec![0; k];
        ArrayCombinationsWithReps(GenericCombinations::new(iter, comb))
    }

    /// Hands back the next selection with repetition: `k` elements each
    /// picked from the pool. The result is `None` exactly once the adaptor
    /// is finished for good, and it stays finished.
    pub fn next(&mut self) -> (r: Option<Vec<T>>)
        requires
            old(self).wf(),
        ensures
            final(self).wf(),
            final(self).k() == old(self).k(),
            old(self).is_done() ==> *final(self) == *old(self),
            r matches Some(out) ==> {
                &&& out@.len() == old(self).k()
                &&& picked_at(final(self).pool(), final(self).indices(), out@)
            },
            old(self).is_first() && r is Some ==> final(self).indices() == old(self).indices(),
            !old(self).is_first() && !old(self).is_done() && r is Some ==> lex_less(
                old(self).indices(),
                final(self).indices(),
            ) && reps_successor(
                old(self).indices(),
                final(self).indices(),
                final(self).pool().len() as int,
            ),
            old(self).is_first() ==> ((r is Some) <==> old(self).pool().len() + old(
                self,
            ).upcoming().len() >= 1),
            !old(self).is_done() && !old(self).is_first() ==> ((r is None) <==> (
            old(self).upcoming().len() == 0 && saturated_indices(
                old(self).indices(),
                old(self).pool().len() as int,
            ))),
            r is None <==> final(self).is_done(),
    {
        self.0.fill_next_with_reps()
    }
}

impl<T: Copy> Clone for ArrayCombinationsWithReps<T> {
    /// Copies the adaptor; the copy steps through the remaining selections
    /// independently.
    fn clone(&self) -> (r: Self)
        ensures
            self.wf() ==> {
                &&& r.wf()
                &&& r.k() == self.k()
                &&& r.pool() == self.pool()
                &&& r.upcoming() == self.upcoming()
                &&& r.indices() == self.indices()
                &&& r.is_done() == self.is_done()
            },
    {
        ArrayCombinationsWithReps(self.0.clone())
    }
}

} // verus!
