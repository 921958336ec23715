use vstd::prelude::*;

use crate::into_iter::IntoIter;

verus! {

/// An extension trait that provides the [`next_chunk`] method for sources.
///
/// [`next_chunk`]: IterNextChunk::next_chunk
pub trait IterNextChunk<T>: View<V = Seq<T>> {
    /// Whether the source is in a fit state to be drawn from.
    spec fn chunk_ready(&self) -> bool;

    /// Advances the source and returns its next `n` values; with fewer left,
    /// the failure payload is a cursor carrying exactly those values.
    fn next_chunk(&mut self, n: usize) -> (r: Result<Vec<T>, IntoIter<T>>)
        requires
            old(self).chunk_ready(),
        ensures
            final(self).chunk_ready(),
            old(self)@.len() >= n ==> {
                &&& r matches Ok(out) && out@ == old(self)@.take(n as int)
                &&& final(self)@ == old(self)@.skip(n as int)
            },
            old(self)@.len() < n ==> {
                &&& r matches Err(rem) && rem.wf() && rem@ == old(self)@
                &&& final(self)@.len() == 0
            },
    ;

    /// Identical to [`next_chunk`], under a name that cannot collide with
    /// the standard library's.
    ///
    /// [`next_chunk`]: IterNextChunk::next_chunk
    fn next_array(&mut self, n: usize) -> (r: Result<Vec<T>, IntoIter<T>>)
        requires
            old(self).chunk_ready(),
        ensures
            final(self).chunk_ready(),
            old(self)@.len() >= n ==> {
                &&& r matches Ok(out) && out@ == old(self)@.take(n as int)
                &&& final(self)@ == old(self)@.skip(n as int)
            },
            old(self)@.len() < n ==> {
                &&& r matches Err(rem) && rem.wf() && rem@ == old(self)@
                &&& final(self)@.len() == 0
            },
    ;
}

impl<T> IterNextChunk<T> for IntoIter<T> {
    open spec fn chunk_ready(&self) -> bool {
        self.wf()
    }

    fn next_chunk(&mut self, n: usize) -> (r: Result<Vec<T>, IntoIter<T>>) {
        next_chunk(self, n)
    }

    fn next_array(&mut self, n: usize) -> (r: Result<Vec<T>, IntoIter<T>>) {
        next_chunk(self, n)
    }
}

/// An extension trait that provides the [`collect_array`] method for
/// sources.
///
/// [`collect_array`]: IterCollectArray::collect_array
pub trait IterCollectArray<T>: View<V = Seq<T>> + Sized {
    /// Whether the source is in a fit state to be drawn from.
    spec fn collect_ready(&self) -> bool;

    /// Consumes the whole source, which must hold exactly `n` values, and
    /// hands them back in order.
    fn collect_array(self, n: usize) -> (r: Vec<T>)
        requires
            self.collect_ready(),
            self@.len() == n,
        ensures
            r@ == self@,
    ;
}

impl<T> IterCollectArray<T> for IntoIter<T> {
    open spec fn collect_ready(&self) -> bool {
        self.wf()
    }

    fn collect_array(self, n: usize) -> (r: Vec<T>) {
        collect_array(self, n)
    }
}

/// Pulls up to `n` values from the source. If the source holds at least `n`
/// values, exactly the first `n` are taken, in order, and the rest stay in
/// the source untouched. Otherwise every value the source still held is moved
/// into a fresh cursor and handed back as the failure payload, so nothing the
/// source produced is lost.
pub fn next_chunk<T>(src: &mut IntoIter<T>, n: usize) -> (r: Result<Vec<T>, IntoIter<T>>)
    requires
        old(src).wf(),
    ensures
        final(src).wf(),
        old(src)@.len() >= n ==> {
            &&& r matches Ok(out) && out@ == old(src)@.take(n as int)
            &&& final(src)@ == old(src)@.skip(n as int)
            &&& final(src).capacity() == old(src).capacity()
        },
        old(src)@.len() < n ==> {
            &&& r matches Err(rem) && rem.wf() && rem@ == old(src)@
            &&& final(src)@.len() == 0
        },
{
    let ghost orig = src@;
    let ghost cap0 = src.capacity();
    let mut out: Vec<T> = Vec::new();
    let mut i: usize = 0;
    while i < n
        invariant
            orig == old(src)@,
            cap0 == old(src).capacity(),
            src.wf(),
            src.capacity() == cap0,
            i <= n,
            out@.len() == i,
            out@ + src@ == orig,
            out@ == orig.take(i as int),
        decreases n - i,
    {
        match src.next() {
            Some(x) => {
                out.push(x);
                i = i + 1;
                proof {
                    assert(out@ + src@ =~= orig);
                    assert(out@ =~= orig.take(i as int));
                }
            }
            None => {
                let rem = IntoIter::new(out);
                proof {
                    assert(rem@ + src@ =~= orig);
                    assert(rem@ =~= orig);
                }
                return Err(rem);
            }
        }
    }
    proof {
        assert(src@ =~= orig.skip(n as int));
    }
    Ok(out)
}

/// Identical to [`next_chunk`]; kept alongside it so callers that avoid the
/// standard library's method name have one of their own.
pub fn next_array<T>(src: &mut IntoIter<T>, n: usize) -> (r: Result<Vec<T>, IntoIter<T>>)
    requires
        old(src).wf(),
    ensures
        final(src).wf(),
        old(src)@.len() >= n ==> {
            &&& r matches Ok(out) && out@ == old(src)@.take(n as int)
            &&& final(src)@ == old(src)@.skip(n as int)
            &&& final(src).capacity() == old(src).capacity()
        },
        old(src)@.len() < n ==> {
            &&& r matches Err(rem) && rem.wf() && rem@ == old(src)@
            &&& final(src)@.len() == 0
        },
{
    next_chunk(src, n)
}

/// Pulls up to `n` values from the source by reference. On success the result
/// holds exactly the first `n` values in production order and the source keeps
/// the rest; on shortfall the result is `None` and the values already pulled
/// are dropped. With `n == 0` this always succeeds with an empty block and
/// takes nothing from the source.
pub fn collect<T>(src: &mut IntoIter<T>, n: usize) -> (r: Option<Vec<T>>)
    requires
        old(src).wf(),
    ensures
        final(src).wf(),
        old(src)@.len() >= n ==> {
            &&& r matches Some(out) && out@ == old(src)@.take(n as int)
            &&& final(src)@ == old(src)@.skip(n as int)
            &&& final(src).capacity() == old(src).capacity()
        },
        old(src)@.len() < n ==> r is None && final(src)@.len() == 0,
{
    match next_chunk(src, n) {
        Ok(out) => Some(out),
        Err(_) => None,
    }
}

/// Consumes the source and pulls up to `n` values from it. On success the
/// result holds exactly the first `n` values; on shortfall the failure payload
/// is a cursor carrying every value the source held, so the caller can still
/// drain them.
pub fn collect_owned<T>(src: IntoIter<T>, n: usize) -> (r: Result<Vec<T>, IntoIter<T>>)
    requires
        src.wf(),
    ensures
        src@.len() >= n ==> (r matches Ok(out) && out@ == src@.take(n as int)),
        src@.len() < n ==> (r matches Err(rem) && rem.wf() && rem@ == src@),
{
    let mut src = src;
    next_chunk(&mut src, n)
}

/// The collector for callers that can show the source holds at least `n`
/// values: no shortfall case exists, so the result is the block itself.
pub fn collect_exact<T>(src: &mut IntoIter<T>, n: usize) -> (r: Vec<T>)
    requires
        old(src).wf(),
        n <= old(src)@.len(),
    ensures
        final(src).wf(),
        r@ == old(src)@.take(n as int),
        final(src)@ == old(src)@.skip(n as int),
        final(src).capacity() == old(src).capacity(),
{
    match next_chunk(src, n) {
        Ok(out) => out,
        Err(_) => {
            proof {
                assert(false);
            }
            Vec::new()
        }
    }
}

/// Pulls up to `n` values and hands them back in reverse production order:
/// the first value produced ends up in the last slot. On shortfall the result
/// is `None`, the values already pulled are dropped, and the source is
/// drained.
pub fn collect_reversed<T>(src: &mut IntoIter<T>, n: usize) -> (r: Option<Vec<T>>)
    requires
        old(src).wf(),
    ensures
        final(src).wf(),
        old(src)@.len() >= n ==> {
            &&& r matches Some(out) && out@ == old(src)@.take(n as int).reverse()
            &&& final(src)@ == old(src)@.skip(n as int)
            &&& final(src).capacity() == old(src).capacity()
        },
        old(src)@.len() < n ==> r is None && final(src)@.len() == 0,
{
    let ghost orig = src@;
    let ghost cap0 = src.capacity();
    let mut out: Vec<T> = Vec::new();
    let mut i: usize = 0;
    proof {
        assert(src@ =~= orig.skip(0));
        assert(out@ =~= orig.take(0).reverse());
    }
    while i < n
        invariant
            orig == old(src)@,
            cap0 == old(src).capacity(),
            src.wf(),
            src.capacity() == cap0,
            i <= n,
            out@.len() == i,
            i + src@.len() == orig.len(),
            src@ == orig.skip(i as int),
            out@ == orig.take(i as int).reverse(),
        decreases n - i,
    {
        match src.next() {
            Some(x) => {
                out.insert(0, x);
                i = i + 1;
                proof {
                    assert(src@ =~= orig.skip(i as int));
                    assert(out@ =~= orig.take(i as int).reverse());
                }
            }
            None => {
                return None;
            }
        }
    }
    Some(out)
}

/// Consumes the entire source, which must hold exactly `n` values, and hands
/// them back in order.
pub fn collect_array<T>(src: IntoIter<T>, n: usize) -> (r: Vec<T>)
    requires
        src.wf(),
        src@.len() == n,
    ensures
        r@ == src@,
{
    let ghost orig = src@;
    let mut src = src;
    let out = collect_exact(&mut src, n);
    proof {
        assert(out@ =~= orig);
    }
    out
}

} // verus!
