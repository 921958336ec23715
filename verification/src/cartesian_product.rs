use vstd::prelude::*;

use crate::array_windows::copy_vec;
use crate::into_iter::IntoIter;

verus! {

/// An extension trait that provides the [`cartesian_product`] method for
/// sources.
///
/// [`cartesian_product`]: IterCartesianProduct::cartesian_product
pub trait IterCartesianProduct<T: Copy>: View<V = Seq<T>> + Sized {
    /// Whether the source is in a fit state to be adapted.
    spec fn product_ready(&self) -> bool;

    /// Returns an adaptor over the cartesian product of the source's
    /// elements with the given ones.
    fn cartesian_product<U: Copy>(self, other: Vec<U>) -> (r: CartesianProduct<T, U>)
        requires
            self.product_ready(),
        ensures
            r.wf(),
            r.a_seq() == self@,
            r.b_seq() == other@,
            r.ai_spec() == 0,
            r.bi_spec() == 0,
    ;
}

impl<T: Copy> IterCartesianProduct<T> for IntoIter<T> {
    open spec fn product_ready(&self) -> bool {
        self.wf()
    }

    fn cartesian_product<U: Copy>(self, other: Vec<U>) -> (r: CartesianProduct<T, U>) {
        CartesianProduct::new(self.as_slice(), other)
    }
}

/// An adaptor that yields the cartesian product of two element sets: every
/// pair of one element of the first set and one of the second, the second
/// position varying fastest.
#[derive(Debug)]
pub struct CartesianProduct<T, U> {
    a: Vec<T>,
    b: Vec<U>,
    ai: usize,
    bi: usize,
}

impl<T: Copy, U: Copy> CartesianProduct<T, U> {
    /// The two positions stay inside their sets; the second is normalized,
    /// wrapping to the next first-set element as soon as it runs off.
    pub closed spec fn wf(&self) -> bool {
        &&& self.ai <= self.a@.len()
        &&& if self.b@.len() == 0 {
            self.bi == 0
        } else {
            self.bi < self.b@.len()
        }
    }

    /// The first element set.
    pub closed spec fn a_seq(&self) -> Seq<T> {
        self.a@
    }

    /// The second element set.
    pub closed spec fn b_seq(&self) -> Seq<U> {
        self.b@
    }

    /// The position in the first set of the pair yielded next.
    pub closed spec fn ai_spec(&self) -> nat {
        self.ai as nat
    }

    /// The position in the second set of the pair yielded next.
    pub closed spec fn bi_spec(&self) -> nat {
        self.bi as nat
    }

    /// Wraps two element sets for their cartesian product.
    pub fn new(a: Vec<T>, b: Vec<U>) -> (r: Self)
        ensures
            r.wf(),
            r.a_seq() == a@,
            r.b_seq() == b@,
            r.ai_spec() == 0,
            r.bi_spec() == 0,
    {
        CartesianProduct { a, b, ai: 0, bi: 0 }
    }

    /// Hands back the next pair and steps the second position, wrapping it
    /// and stepping the first when the second set runs out. Exhaustion means
    /// the first set has been stepped through, or either set is empty.
    pub fn next(&mut self) -> (r: Option<(T, U)>)
        requires
            old(self).wf(),
        ensures
            final(self).wf(),
            final(self).a_seq() == old(self).a_seq(),
            final(self).b_seq() == old(self).b_seq(),
            old(self).ai_spec() == old(self).a_seq().len() || old(self).b_seq().len() == 0 ==> {
                &&& r is None
                &&& *final(self) == *old(self)
            },
            old(self).ai_spec() < old(self).a_seq().len() && old(self).b_seq().len() > 0 ==> {
                &&& r == Some(
                    (
                        old(self).a_seq()[old(self).ai_spec() as int],
                        old(self).b_seq()[old(self).bi_spec() as int],
                    ),
                )
                &&& if old(self).bi_spec() + 1 < old(self).b_seq().len() {
                    final(self).bi_spec() == old(self).bi_spec() + 1 && final(self).ai_spec() == old(
                        self,
                    ).ai_spec()
                } else {
                    final(self).bi_spec() == 0 && final(self).ai_spec() == old(self).ai_spec() + 1
                }
            },
    {
        if self.b.len() == 0 || self.ai >= self.a.len() {
            return None;
        }
        let pair = (self.a[self.ai], self.b[self.bi]);
        if self.bi + 1 < self.b.len() {
            self.bi = self.bi + 1;
        } else {
            self.bi = 0;
            self.ai = self.ai + 1;
        }
        Some(pair)
    }
}

impl<T: Copy, U: Copy> Clone for CartesianProduct<T, U> {
    /// Copies the adaptor; the copy yields the same pairs independently.
    fn clone(&self) -> (r: Self)
        ensures
            r.a_seq() == self.a_seq(),
            r.b_seq() == self.b_seq(),
            r.ai_spec() == self.ai_spec(),
            r.bi_spec() == self.bi_spec(),
            self.wf() ==> r.wf(),
    {
        CartesianProduct {
            a: copy_vec(&self.a),
            b: copy_vec(&self.b),
            ai: self.ai,
            bi: self.bi,
        }
    }
}

} // verus!
