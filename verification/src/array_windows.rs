use vstd::prelude::*;

use crate::collect::collect;
use crate::into_iter::IntoIter;

verus! {

/// An extension trait that provides the [`array_windows`] method for
/// sources.
///
/// [`array_windows`]: IterArrayWindows::array_windows
pub trait IterArrayWindows<T: Copy>: View<V = Seq<T>> + Sized {
    /// Whether the source is in a fit state to be adapted.
    spec fn windows_ready(&self) -> bool;

    /// Returns an adaptor over all contiguous windows of `n` elements. The
    /// windows overlap; a source shorter than one window yields nothing.
    fn array_windows(self, n: usize) -> (r: ArrayWindows<T>)
        requires
            self.windows_ready(),
            n >= 1,
        ensures
            r.wf(),
            r.n_spec() == n,
            r.source() == self@,
            !r.started(),
    ;
}

impl<T: Copy> IterArrayWindows<T> for IntoIter<T> {
    open spec fn windows_ready(&self) -> bool {
        self.wf()
    }

    fn array_windows(self, n: usize) -> (r: ArrayWindows<T>) {
        ArrayWindows::new(self, n)
    }
}

/// An adaptor that yields every contiguous window of `n` elements of the
/// source, one step apart. The elements are copied so that each can be part
/// of `n` successive windows.
#[derive(Debug)]
pub struct ArrayWindows<T> {
    iter: IntoIter<T>,
    n: usize,
    last: Option<Vec<T>>,
}

impl<T: Copy> ArrayWindows<T> {
    /// The window width is positive, the source is well formed, and a held
    /// window always has exactly the window width.
    pub closed spec fn wf(&self) -> bool {
        &&& self.n >= 1
        &&& self.iter.wf()
        &&& (self.last matches Some(w) ==> w@.len() == self.n)
    }

    /// The window width.
    pub closed spec fn n_spec(&self) -> nat {
        self.n as nat
    }

    /// The elements the source still holds.
    pub closed spec fn source(&self) -> Seq<T> {
        self.iter@
    }

    /// The window yielded last, if any.
    pub closed spec fn last_spec(&self) -> Option<Seq<T>> {
        match self.last {
            Some(w) => Some(w@),
            None => None,
        }
    }

    /// Whether a first window was already yielded.
    pub open spec fn started(&self) -> bool {
        self.last_spec() is Some
    }

    /// The elements the coming windows are drawn from: the last window, if
    /// any, followed by what the source still holds.
    pub open spec fn stream(&self) -> Seq<T> {
        match self.last_spec() {
            Some(l) => l + self.source(),
            None => self.source(),
        }
    }

    /// Where in the stream the next window starts.
    pub open spec fn start(&self) -> int {
        if self.started() {
            1
        } else {
            0
        }
    }

    /// How many windows are left; exact.
    pub open spec fn windows_left(&self) -> int {
        if self.stream().len() >= self.start() + self.n_spec() {
            self.stream().len() - self.start() - self.n_spec() + 1
        } else {
            0
        }
    }

    /// Wraps a source for windows of `n` elements.
    pub fn new(iter: IntoIter<T>, n: usize) -> (r: Self)
        requires
            iter.wf(),
            n >= 1,
        ensures
            r.wf(),
            r.n_spec() == n,
            r.source() == iter@,
            !r.started(),
    {
        ArrayWindows { iter, n, last: None }
    }

    /// Hands back the next window: the `n` stream elements one past the last
    /// window's start. When too few elements are left for a whole window the
    /// result is exhaustion; a source that never filled one window is
    /// drained, as its elements cannot be of further use.
    pub fn next(&mut self) -> (r: Option<Vec<T>>)
        requires
            old(self).wf(),
        ensures
            final(self).wf(),
            final(self).n_spec() == old(self).n_spec(),
            old(self).stream().len() >= old(self).start() + old(self).n_spec() ==> {
                &&& r matches Some(out) && out@ == old(self).stream().subrange(
                    old(self).start(),
                    old(self).start() + old(self).n_spec(),
                )
                &&& final(self).started()
                &&& final(self).stream() == old(self).stream().skip(old(self).start())
            },
            old(self).stream().len() < old(self).start() + old(self).n_spec() ==> {
                &&& r is None
                &&& final(self).source().len() == 0
                &&& final(self).last_spec() == old(self).last_spec()
            },
    {
        if self.last.is_none() {
            match collect(&mut self.iter, self.n) {
                Some(w) => {
                    let out = copy_vec(&w);
                    self.last = Some(w);
                    proof {
                        assert(out@ =~= old(self).stream().subrange(0, self.n as int));
                        assert(self.stream() =~= old(self).stream());
                    }
                    Some(out)
                }
                None => None,
            }
        } else {
            match self.iter.next() {
                Some(x) => {
                    let lastv = match &self.last {
                        Some(w) => w,
                        None => {
                            proof {
                                assert(false);
                            }
                            return None;
                        }
                    };
                    let mut w: Vec<T> = Vec::new();
                    let mut i: usize = 1;
                    while i < lastv.len()
                        invariant
                            1 <= i <= lastv@.len(),
                            w@ == lastv@.subrange(1, i as int),
                        decreases lastv@.len() - i,
                    {
                        w.push(lastv[i]);
                        proof {
                            assert(w@ =~= lastv@.subrange(1, i + 1));
                        }
                        i = i + 1;
                    }
                    w.push(x);
                    let out = copy_vec(&w);
                    self.last = Some(w);
                    proof {
                        assert(out@ =~= old(self).stream().subrange(
                            1,
                            1 + old(self).n_spec() as int,
                        ));
                        assert(self.stream() =~= old(self).stream().skip(1));
                    }
                    Some(out)
                }
                None => None,
            }
        }
    }

    /// Exact bounds on the number of windows left.
    pub fn size_hint(&self) -> (r: (usize, Option<usize>))
        requires
            self.wf(),
        ensures
            r.0 == self.windows_left(),
            r.1 == Some(self.windows_left() as usize),
    {
        let c = self.window_count();
        (c, Some(c))
    }

    /// The number of windows left; exact.
    pub fn len(&self) -> (r: usize)
        requires
            self.wf(),
        ensures
            r == self.windows_left(),
    {
        self.window_count()
    }

    /// Consumes the adaptor, reporting how many windows were left.
    pub fn count(self) -> (r: usize)
        requires
            self.wf(),
        ensures
            r == self.windows_left(),
    {
        self.window_count()
    }

    /// The shared body behind `size_hint`, `len` and `count`.
    fn window_count(&self) -> (r: usize)
        requires
            self.wf(),
        ensures
            r == self.windows_left(),
    {
        let m = self.iter.len();
        if self.last.is_some() {
            m
        } else {
            if m >= self.n {
                m - (self.n - 1)
            } else {
                0
            }
        }
    }

    /// Hands back the window `idx` places ahead, discarding the windows
    /// before it, like calling `next` `idx + 1` times and keeping the last
    /// answer.
    pub fn nth(&mut self, idx: usize) -> (r: Option<Vec<T>>)
        requires
            old(self).wf(),
        ensures
            final(self).wf(),
            final(self).n_spec() == old(self).n_spec(),
            old(self).stream().len() >= old(self).start() + idx + old(self).n_spec() ==> {
                &&& r matches Some(out) && out@ == old(self).stream().subrange(
                    old(self).start() + idx,
                    old(self).start() + idx + old(self).n_spec(),
                )
                &&& final(self).stream() == old(self).stream().skip(old(self).start() + idx)
            },
            old(self).stream().len() < old(self).start() + idx + old(self).n_spec() ==> r is None
                && final(self).source().len() == 0,
    {
        let ghost s0 = old(self).stream();
        let ghost st0 = old(self).start();
        let mut j: usize = 0;
        loop
            invariant
                j <= idx,
                self.wf(),
                self.n == old(self).n,
                s0 == old(self).stream(),
                st0 == old(self).start(),
                j == 0 ==> *self == *old(self),
                j > 0 ==> self.started() && self.stream() == s0.skip(st0 + j - 1) && s0.len()
                    >= st0 + j - 1 + self.n as int,
            ensures
                true,
            decreases idx - j,
        {
            match self.next() {
                Some(c) => {
                    if j >= idx {
                        proof {
                            if j > 0 {
                                assert(c@ =~= s0.subrange(st0 + j, st0 + j + self.n as int));
                                assert(self.stream() =~= s0.skip(st0 + j));
                            }
                        }
                        return Some(c);
                    }
                    proof {
                        if j > 0 {
                            assert(self.stream() =~= s0.skip(st0 + j));
                        }
                    }
                    j = j + 1;
                }
                None => {
                    return None;
                }
            }
        }
    }
}

impl<T: Copy> Clone for ArrayWindows<T> {
    /// Copies the adaptor; the copy yields the same windows independently.
    fn clone(&self) -> (r: Self)
        ensures
            self.wf() ==> {
                &&& r.wf()
                &&& r.n_spec() == self.n_spec()
                &&& r.source() == self.source()
                &&& r.last_spec() == self.last_spec()
            },
    {
        let last = match &self.last {
            Some(w) => Some(copy_vec(w)),
            None => None,
        };
        ArrayWindows { iter: self.iter.clone(), n: self.n, last }
    }
}

/// Copies a vector of copyable elements, slot for slot.
pub(crate) fn copy_vec<T: Copy>(v: &Vec<T>) -> (r: Vec<T>)
    ensures
        r@ == v@,
{
    let mut r: Vec<T> = Vec::new();
    let mut i: usize = 0;
    while i < v.len()
        invariant
            i <= v@.len(),
            r@ == v@.take(i as int),
        decreases v@.len() - i,
    {
        r.push(v[i]);
        proof {
            assert(r@ =~= v@.take(i + 1));
        }
        i = i + 1;
    }
    proof {
        assert(v@.take(v@.len() as int) =~= v@);
    }
    r
}

} // verus!
