use vstd::prelude::*;

use crate::array_windows::copy_vec;
use crate::into_iter::IntoIter;

verus! {

/// An extension trait that provides the [`circular_array_windows`] method
/// for sources.
///
/// [`circular_array_windows`]: IterCircularArrayWindows::circular_array_windows
pub trait IterCircularArrayWindows<T: Copy>: View<V = Seq<T>> + Sized {
    /// Whether the source is in a fit state to be adapted.
    spec fn circular_ready(&self) -> bool;

    /// Returns an adaptor over all contiguous windows of `n` elements that
    /// wrap around at the end of the source, one window per element.
    fn circular_array_windows(self, n: usize) -> (r: CircularArrayWindows<T>)
        requires
            self.circular_ready(),
            n >= 1,
        ensures
            r.wf(),
            r.n_spec() == n,
            r.buf_spec() == self@,
            r.remaining_spec() == self@.len(),
    ;
}

impl<T: Copy> IterCircularArrayWindows<T> for IntoIter<T> {
    open spec fn circular_ready(&self) -> bool {
        self.wf()
    }

    fn circular_array_windows(self, n: usize) -> (r: CircularArrayWindows<T>) {
        CircularArrayWindows::new(self, n)
    }
}

/// An adaptor that yields every contiguous window of `n` elements of the
/// source, wrapping back to the first elements when a window would run past
/// the end. One window starts at each source position, so the number of
/// windows equals the number of elements; a window longer than the source
/// wraps around it more than once.
#[derive(Debug)]
pub struct CircularArrayWindows<T> {
    buf: Vec<T>,
    remaining: usize,
    n: usize,
}

impl<T: Copy> CircularArrayWindows<T> {
    /// The window width is positive and at most as many windows remain as
    /// the source has elements.
    pub closed spec fn wf(&self) -> bool {
        &&& self.n >= 1
        &&& self.remaining <= self.buf@.len()
    }

    /// The window width.
    pub closed spec fn n_spec(&self) -> nat {
        self.n as nat
    }

    /// The elements the windows are drawn from.
    pub closed spec fn buf_spec(&self) -> Seq<T> {
        self.buf@
    }

    /// How many windows are left; exact.
    pub closed spec fn remaining_spec(&self) -> nat {
        self.remaining as nat
    }

    /// Wraps a source for wrapping windows of `n` elements; the source is
    /// drawn off up front, one window per element.
    pub fn new(iter: IntoIter<T>, n: usize) -> (r: Self)
        requires
            iter.wf(),
            n >= 1,
        ensures
            r.wf(),
            r.n_spec() == n,
            r.buf_spec() == iter@,
            r.remaining_spec() == iter@.len(),
    {
        let buf = iter.as_slice();
        let remaining = buf.len();
        CircularArrayWindows { buf, remaining, n }
    }

    /// Hands back the next window: the `n` elements starting at the next
    /// position, indices wrapping around the end of the source.
    pub fn next(&mut self) -> (r: Option<Vec<T>>)
        requires
            old(self).wf(),
        ensures
            final(self).wf(),
            final(self).n_spec() == old(self).n_spec(),
            final(self).buf_spec() == old(self).buf_spec(),
            old(self).remaining_spec() == 0 ==> r is None && *final(self) == *old(self),
            old(self).remaining_spec() > 0 ==> {
                &&& final(self).remaining_spec() == old(self).remaining_spec() - 1
                &&& (r matches Some(out) && out@.len() == old(self).n_spec() && (forall|j: int|
                    0 <= j < old(self).n_spec() ==> out@[j] == old(self).buf_spec()[(((
                    old(self).buf_spec().len() - old(self).remaining_spec()) + j) % (
                    old(self).buf_spec().len() as int))]))
            },
    {
        if self.remaining == 0 {
            return None;
        }
        let len = self.buf.len();
        let ghost pos = len - self.remaining;
        let mut out: Vec<T> = Vec::new();
        let mut idx: usize = len - self.remaining;
        proof {
            vstd::arithmetic::div_mod::lemma_fundamental_div_mod_converse_mod(
                pos,
                len as int,
                0,
                pos,
            );
        }
        let mut j: usize = 0;
        while j < self.n
            invariant
                self == old(self),
                self.remaining >= 1,
                len == self.buf@.len(),
                pos == len - self.remaining,
                j <= self.n,
                idx < len,
                (pos + j) % (len as int) == idx,
                out@.len() == j,
                forall|t: int|
                    0 <= t < j ==> out@[t] == self.buf@[((pos + t) % (len as int)) as int],
            decreases self.n - j,
        {
            out.push(self.buf[idx]);
            proof {
                let x = pos + j;
                vstd::arithmetic::div_mod::lemma_fundamental_div_mod(x, len as int);
                let q = x / (len as int);
                assert((q + 1) * (len as int) == q * (len as int) + len) by (nonlinear_arith);
                if idx + 1 == len {
                    vstd::arithmetic::div_mod::lemma_fundamental_div_mod_converse_mod(
                        x + 1,
                        len as int,
                        q + 1,
                        0,
                    );
                } else {
                    vstd::arithmetic::div_mod::lemma_fundamental_div_mod_converse_mod(
                        x + 1,
                        len as int,
                        q,
                        idx + 1,
                    );
                }
            }
            if idx + 1 == len {
                idx = 0;
            } else {
                idx = idx + 1;
            }
            j = j + 1;
        }
        self.remaining = self.remaining - 1;
        Some(out)
    }

    /// Exact bounds on the number of windows left.
    pub fn size_hint(&self) -> (r: (usize, Option<usize>))
        requires
            self.wf(),
        ensures
            r.0 == self.remaining_spec(),
            r.1 == Some(self.remaining_spec() as usize),
    {
        (self.remaining, Some(self.remaining))
    }

    /// The number of windows left; exact.
    pub fn len(&self) -> (r: usize)
        requires
            self.wf(),
        ensures
            r == self.remaining_spec(),
    {
        self.remaining
    }

    /// Consumes the adaptor, reporting how many windows were left.
    pub fn count(self) -> (r: usize)
        requires
            self.wf(),
        ensures
            r == self.remaining_spec(),
    {
        self.remaining
    }
}

impl<T: Copy> Clone for CircularArrayWindows<T> {
    /// Copies the adaptor; the copy yields the same windows independently.
    fn clone(&self) -> (r: Self)
        ensures
            r.n_spec() == self.n_spec(),
            r.buf_spec() == self.buf_spec(),
            r.remaining_spec() == self.remaining_spec(),
            self.wf() ==> r.wf(),
    {
        CircularArrayWindows { buf: copy_vec(&self.buf), remaining: self.remaining, n: self.n }
    }
}

} // verus!
