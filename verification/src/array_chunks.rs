use vstd::prelude::*;

use crate::collect::next_chunk;
use crate::into_iter::IntoIter;

verus! {

/// An extension trait that provides the [`array_chunks`] method for sources.
///
/// [`array_chunks`]: IterArrayChunks::array_chunks
pub trait IterArrayChunks<T>: View<V = Seq<T>> + Sized {
    /// Whether the source is in a fit state to be adapted.
    spec fn chunks_ready(&self) -> bool;

    /// Returns an adaptor over `n` elements of the source at a time. The
    /// chunks do not overlap; trailing elements that form no whole chunk are
    /// parked as the remainder once discovered.
    fn array_chunks(self, n: usize) -> (r: ArrayChunks<T>)
        requires
            self.chunks_ready(),
            n >= 1,
        ensures
            r.wf(),
            r.n_spec() == n,
            r.source() == self@,
            r.rem_spec() is None,
    ;

    /// Identical to [`array_chunks`], under a name that cannot collide with
    /// the standard library's.
    ///
    /// [`array_chunks`]: IterArrayChunks::array_chunks
    fn arrays(self, n: usize) -> (r: ArrayChunks<T>)
        requires
            self.chunks_ready(),
            n >= 1,
        ensures
            r.wf(),
            r.n_spec() == n,
            r.source() == self@,
            r.rem_spec() is None,
    ;
}

impl<T> IterArrayChunks<T> for IntoIter<T> {
    open spec fn chunks_ready(&self) -> bool {
        self.wf()
    }

    fn array_chunks(self, n: usize) -> (r: ArrayChunks<T>) {
        ArrayChunks::new(self, n)
    }

    fn arrays(self, n: usize) -> (r: ArrayChunks<T>) {
        ArrayChunks::new(self, n)
    }
}

/// An adaptor that yields `n` elements of the source at a time.
///
/// The chunks do not overlap. If `n` does not divide the number of elements,
/// the last ones form no chunk; once that is discovered they are parked in
/// the remainder cursor instead of being dropped.
#[derive(Debug)]
pub struct ArrayChunks<T> {
    iter: IntoIter<T>,
    n: usize,
    remainder: Option<IntoIter<T>>,
}

impl<T> ArrayChunks<T> {
    /// The chunk width is positive and both cursors are well formed.
    pub closed spec fn wf(&self) -> bool {
        &&& self.n >= 1
        &&& self.iter.wf()
        &&& (self.remainder matches Some(r) ==> r.wf())
    }

    /// The chunk width.
    pub closed spec fn n_spec(&self) -> nat {
        self.n as nat
    }

    /// The elements the source still holds.
    pub closed spec fn source(&self) -> Seq<T> {
        self.iter@
    }

    /// The parked remainder: `None` while it is not yet known.
    pub closed spec fn rem_spec(&self) -> Option<Seq<T>> {
        match self.remainder {
            Some(r) => Some(r@),
            None => None,
        }
    }

    /// Wraps a source for chunks of `n` elements.
    pub fn new(iter: IntoIter<T>, n: usize) -> (r: Self)
        requires
            iter.wf(),
            n >= 1,
        ensures
            r.wf(),
            r.n_spec() == n,
            r.source() == iter@,
            r.rem_spec() is None,
    {
        ArrayChunks { iter, n, remainder: None }
    }

    /// Hands the remainder cursor out: the elements that will never form a
    /// whole chunk, or `None` while the source has not yet fallen short.
    pub fn into_remainder(self) -> (r: Option<IntoIter<T>>)
        ensures
            r is Some <==> self.rem_spec() is Some,
            r matches Some(c) ==> Some(c@) == self.rem_spec() && (self.wf() ==> c.wf()),
    {
        self.remainder
    }

    /// Hands back the next chunk: the next `n` elements in production order.
    /// When fewer than `n` are left they move to the remainder cursor, if no
    /// remainder was parked yet, and the result is exhaustion.
    pub fn next(&mut self) -> (r: Option<Vec<T>>)
        requires
            old(self).wf(),
        ensures
            final(self).wf(),
            final(self).n_spec() == old(self).n_spec(),
            old(self).source().len() >= old(self).n_spec() ==> {
                &&& r matches Some(out) && out@ == old(self).source().take(
                    old(self).n_spec() as int,
                )
                &&& final(self).source() == old(self).source().skip(old(self).n_spec() as int)
                &&& final(self).rem_spec() == old(self).rem_spec()
            },
            old(self).source().len() < old(self).n_spec() ==> {
                &&& r is None
                &&& final(self).source().len() == 0
                &&& final(self).rem_spec() == (if old(self).rem_spec() is Some {
                    old(self).rem_spec()
                } else {
                    Some(old(self).source())
                })
            },
    {
        match next_chunk(&mut self.iter, self.n) {
            Ok(chunk) => Some(chunk),
            Err(rem) => {
                if self.remainder.is_none() {
                    self.remainder = Some(rem);
                }
                None
            }
        }
    }

    /// Exact bounds on the number of whole chunks left.
    pub fn size_hint(&self) -> (r: (usize, Option<usize>))
        requires
            self.wf(),
        ensures
            r.0 == self.source().len() as int / self.n_spec() as int,
            r.1 == Some((self.source().len() as int / self.n_spec() as int) as usize),
    {
        let c = self.iter.len() / self.n;
        (c, Some(c))
    }

    /// Consumes the adaptor, reporting how many whole chunks were left.
    pub fn count(self) -> (r: usize)
        requires
            self.wf(),
        ensures
            r == self.source().len() as int / self.n_spec() as int,
    {
        self.iter.len() / self.n
    }

    /// The number of whole chunks left; exact.
    pub fn len(&self) -> (r: usize)
        requires
            self.wf(),
        ensures
            r == self.source().len() as int / self.n_spec() as int,
    {
        self.iter.len() / self.n
    }

    /// Parks the trailing elements that can never form a whole chunk, so
    /// that the source's length becomes a multiple of the chunk width. Does
    /// nothing when a remainder is already parked.
    fn next_back_remainder(&mut self)
        requires
            old(self).wf(),
        ensures
            final(self).wf(),
            final(self).n_spec() == old(self).n_spec(),
            old(self).rem_spec() is Some ==> *final(self) == *old(self),
            old(self).rem_spec() is None ==> {
                &&& final(self).source() == old(self).source().take(
                    old(self).source().len() - old(self).source().len() as int % old(
                        self,
                    ).n_spec() as int,
                )
                &&& final(self).rem_spec() == Some(
                    old(self).source().skip(
                        old(self).source().len() - old(self).source().len() as int % old(
                            self,
                        ).n_spec() as int,
                    ),
                )
            },
    {
        if self.remainder.is_some() {
            return;
        }
        let ghost orig = self.iter@;
        let ghost keep = self.iter@.len() - self.iter@.len() as int % self.n as int;
        proof {
            lemma_mod_le(orig.len() as int, self.n as int);
        }
        let rem_len = self.iter.len() % self.n;
        let mut rv: Vec<T> = Vec::new();
        let mut i: usize = 0;
        while i < rem_len
            invariant
                orig == old(self).iter@,
                keep == orig.len() - orig.len() as int % old(self).n as int,
                rem_len == orig.len() as int % old(self).n as int,
                rem_len <= orig.len(),
                old(self).n >= 1,
                self.n == old(self).n,
                self.remainder == old(self).remainder,
                self.iter.wf(),
                i <= rem_len,
                self.iter@ == orig.take(orig.len() - i),
                rv@ == orig.skip(orig.len() - i),
            decreases rem_len - i,
        {
            let x = self.iter.next_back().unwrap();
            rv.insert(0, x);
            i = i + 1;
            proof {
                assert(self.iter@ =~= orig.take(orig.len() - i));
                assert(rv@ =~= orig.skip(orig.len() - i));
            }
        }
        self.remainder = Some(IntoIter::new(rv));
        proof {
            assert(self.iter@ =~= orig.take(keep));
            assert(rv@ =~= orig.skip(keep));
        }
    }

    /// Hands back the last whole chunk, in production order, first parking
    /// the trailing remainder if none was parked yet. Exhaustion drains the
    /// source.
    pub fn next_back(&mut self) -> (r: Option<Vec<T>>)
        requires
            old(self).wf(),
        ensures
            final(self).wf(),
            final(self).n_spec() == old(self).n_spec(),
            ({
                let n = old(self).n_spec() as int;
                let m = old(self).source().len() as int;
                let keep = if old(self).rem_spec() is Some {
                    m
                } else {
                    m - m % n
                };
                let rem = if old(self).rem_spec() is Some {
                    old(self).rem_spec()
                } else {
                    Some(old(self).source().skip(keep))
                };
                &&& final(self).rem_spec() == rem
                &&& keep >= n ==> {
                    &&& r matches Some(out) && out@ == old(self).source().subrange(keep - n, keep)
                    &&& final(self).source() == old(self).source().take(keep - n)
                }
                &&& keep < n ==> r is None && final(self).source().len() == 0
            }),
    {
        self.next_back_remainder();
        let ghost mid = self.iter@;
        let ghost midr = self.remainder;
        if self.iter.len() < self.n {
            while self.iter.len() > 0
                invariant
                    self.n == old(self).n,
                    self.remainder == midr,
                    self.iter.wf(),
                    self.remainder matches Some(c) ==> c.wf(),
                decreases self.iter@.len(),
            {
                let _ = self.iter.next_back();
            }
            return None;
        }
        let mut out: Vec<T> = Vec::new();
        let mut i: usize = 0;
        while i < self.n
            invariant
                self.n == old(self).n,
                self.n >= 1,
                self.remainder == midr,
                self.remainder matches Some(c) ==> c.wf(),
                self.iter.wf(),
                i <= self.n,
                mid.len() >= self.n,
                self.iter@ == mid.take(mid.len() - i),
                out@ == mid.skip(mid.len() - i),
            decreases self.n - i,
        {
            let x = self.iter.next_back().unwrap();
            out.insert(0, x);
            i = i + 1;
            proof {
                assert(self.iter@ =~= mid.take(mid.len() - i));
                assert(out@ =~= mid.skip(mid.len() - i));
            }
        }
        proof {
            assert(out@ =~= mid.subrange(mid.len() - self.n, mid.len() as int));
            let m = old(self).source().len() as int;
            let n = self.n as int;
            if old(self).rem_spec() is Some {
                assert(out@ =~= old(self).source().subrange(m - n, m));
                assert(self.iter@ =~= old(self).source().take(m - n));
            } else {
                let keep = m - m % n;
                lemma_mod_le(m, n);
                assert(out@ =~= old(self).source().subrange(keep - n, keep));
                assert(self.iter@ =~= old(self).source().take(keep - n));
            }
        }
        Some(out)
    }

    /// Hands back the chunk `idx` places ahead, discarding the chunks before
    /// it, like calling `next` `idx + 1` times and keeping the last answer.
    pub fn nth(&mut self, idx: usize) -> (r: Option<Vec<T>>)
        requires
            old(self).wf(),
        ensures
            final(self).wf(),
            final(self).n_spec() == old(self).n_spec(),
            old(self).source().len() >= (idx + 1) * old(self).n_spec() ==> {
                &&& r matches Some(out) && out@ == old(self).source().subrange(
                    idx * old(self).n_spec(),
                    (idx + 1) * old(self).n_spec(),
                )
                &&& final(self).source() == old(self).source().skip((idx + 1) * old(self).n_spec())
            },
            old(self).source().len() < (idx + 1) * old(self).n_spec() ==> r is None
                && final(self).source().len() == 0,
    {
        let mut j: usize = 0;
        loop
            invariant
                j <= idx,
                self.wf(),
                self.n == old(self).n,
                self.iter@ == old(self).source().skip(j * self.n as int),
                old(self).source().len() >= j * self.n as int,
            ensures
                true,
            decreases idx - j,
        {
            let ghost pre = self.iter@;
            match self.next() {
                Some(c) => {
                    if j >= idx {
                        proof {
                            lemma_mul_steps(j as int, self.n as int);
                            assert(c@ =~= old(self).source().subrange(
                                j * self.n as int,
                                (j + 1) * self.n as int,
                            ));
                            assert(self.iter@ =~= old(self).source().skip((j + 1) * self.n as int));
                        }
                        return Some(c);
                    }
                    proof {
                        lemma_mul_steps(j as int, self.n as int);
                        assert(self.iter@ =~= old(self).source().skip((j + 1) * self.n as int));
                        lemma_mul_mono(j as int, idx as int, self.n as int);
                    }
                    j = j + 1;
                }
                None => {
                    proof {
                        lemma_mul_steps(j as int, self.n as int);
                        lemma_mul_mono(j + 1, idx + 1, self.n as int);
                    }
                    return None;
                }
            }
        }
    }
}

impl<T: Copy> Clone for ArrayChunks<T> {
    /// Copies the adaptor; the copy yields the same chunks independently.
    fn clone(&self) -> (r: Self)
        ensures
            self.wf() ==> {
                &&& r.wf()
                &&& r.n_spec() == self.n_spec()
                &&& r.source() == self.source()
                &&& r.rem_spec() == self.rem_spec()
            },
    {
        let remainder = match &self.remainder {
            Some(c) => Some(c.clone()),
            None => None,
        };
        ArrayChunks { iter: self.iter.clone(), n: self.n, remainder }
    }
}

/// A remainder lies between zero and the number divided.
proof fn lemma_mod_le(m: int, n: int)
    requires
        m >= 0,
        n >= 1,
    ensures
        0 <= m % n <= m,
        m % n < n,
{
    vstd::arithmetic::div_mod::lemma_mod_decreases(m as nat, n as nat);
    vstd::arithmetic::div_mod::lemma_mod_bound(m, n);
}

/// Stepping a multiple: the next multiple of `n` lies `n` beyond this one.
proof fn lemma_mul_steps(j: int, n: int)
    ensures
        (j + 1) * n == j * n + n,
{
    assert((j + 1) * n == j * n + n) by (nonlinear_arith);
}

/// Multiples grow with the factor: `j <= i` gives `j * n <= i * n`.
proof fn lemma_mul_mono(j: int, i: int, n: int)
    requires
        j <= i,
        n >= 0,
    ensures
        j * n <= i * n,
{
    assert(j <= i && n >= 0 ==> j * n <= i * n) by (nonlinear_arith);
}

} // verus!
