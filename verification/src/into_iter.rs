use vstd::prelude::*;

verus! {

/// A by-value cursor over a fixed buffer of element slots.
///
/// The buffer holds one slot per element position and is never resized while
/// the cursor lives. A slot holds `Some` exactly while its value is live:
/// produced, not yet moved out. The half-open range `[lo, hi)` is the single
/// source of truth for liveness; every operation that moves a value out or in
/// updates the range in the same step.
#[derive(Debug)]
pub struct IntoIter<T> {
    slots: Vec<Option<T>>,
    lo: usize,
    hi: usize,
}

impl<T> View for IntoIter<T> {
    type V = Seq<T>;

    /// The live values, in the order they will be yielded.
    closed spec fn view(&self) -> Seq<T> {
        Seq::new((self.hi - self.lo) as nat, |j: int| self.slots@[self.lo + j]->0)
    }
}

impl<T> IntoIter<T> {
    /// The liveness invariant: the range is canonical and in bounds, and a
    /// slot holds a value exactly when its index lies inside the range.
    pub closed spec fn wf(&self) -> bool {
        &&& self.lo <= self.hi <= self.slots@.len()
        &&& forall|i: int|
            0 <= i < self.slots@.len() ==> (self.slots@[i] is Some <==> self.lo <= i < self.hi)
    }

    /// The number of slots in the buffer, live or not.
    pub closed spec fn capacity(&self) -> nat {
        self.slots@.len()
    }

    /// Creates a cursor over a fully live buffer holding the given values.
    pub fn new(arr: Vec<T>) -> (r: Self)
        ensures
            r.wf(),
            r@ == arr@,
            r.capacity() == arr@.len(),
    {
        let ghost orig = arr@;
        let mut arr = arr;
        let mut slots: Vec<Option<T>> = Vec::new();
        while arr.len() > 0
            invariant
                arr@.len() + slots@.len() == orig.len(),
                forall|j: int| 0 <= j < arr@.len() ==> arr@[j] == orig[j],
                forall|j: int|
                    0 <= j < slots@.len() ==> slots@[j] == Some(orig[arr@.len() + j]),
            decreases arr@.len(),
        {
            let x = arr.pop().unwrap();
            slots.insert(0, Some(x));
        }
        let hi = slots.len();
        let r = IntoIter { slots, lo: 0, hi };
        proof {
            assert(r@ =~= orig);
        }
        r
    }

    /// Moves the first live value out of the buffer, if any; the slot is dead
    /// from that point on. A drained cursor stays drained: further calls
    /// return `None` and change nothing.
    pub fn next(&mut self) -> (r: Option<T>)
        requires
            old(self).wf(),
        ensures
            final(self).wf(),
            final(self).capacity() == old(self).capacity(),
            old(self)@.len() == 0 ==> r is None && *final(self) == *old(self),
            old(self)@.len() > 0 ==> r == Some(old(self)@[0]) && final(self)@ == old(self)@.drop_first(),
    {
        if self.lo < self.hi {
            let r = self.slots[self.lo].take();
            self.lo = self.lo + 1;
            proof {
                assert(self@ =~= old(self)@.drop_first());
            }
            r
        } else {
            None
        }
    }

    /// Moves the last live value out of the buffer, if any.
    pub fn next_back(&mut self) -> (r: Option<T>)
        requires
            old(self).wf(),
        ensures
            final(self).wf(),
            final(self).capacity() == old(self).capacity(),
            old(self)@.len() == 0 ==> r is None && *final(self) == *old(self),
            old(self)@.len() > 0 ==> r == Some(old(self)@.last()) && final(self)@ == old(self)@.drop_last(),
    {
        if self.lo < self.hi {
            let r = self.slots[self.hi - 1].take();
            self.hi = self.hi - 1;
            proof {
                assert(self@ =~= old(self)@.drop_last());
            }
            r
        } else {
            None
        }
    }

    /// The number of live values left to yield; exact, not an estimate.
    pub fn len(&self) -> (r: usize)
        requires
            self.wf(),
        ensures
            r == self@.len(),
    {
        self.hi - self.lo
    }

    /// Exact bounds on the number of values left: both ends equal the length.
    pub fn size_hint(&self) -> (r: (usize, Option<usize>))
        requires
            self.wf(),
        ensures
            r.0 == self@.len(),
            r.1 == Some(self@.len() as usize),
    {
        let n = self.hi - self.lo;
        (n, Some(n))
    }

    /// Consumes the cursor, reporting how many values it still held.
    pub fn count(self) -> (r: usize)
        requires
            self.wf(),
        ensures
            r == self@.len(),
    {
        self.hi - self.lo
    }
}

impl<T: Copy> IntoIter<T> {
    /// Copies out the live values, in order: the exact remainder of the
    /// iteration, matching `len` slot for slot.
    pub fn as_slice(&self) -> (r: Vec<T>)
        requires
            self.wf(),
        ensures
            r@ == self@,
    {
        let mut out: Vec<T> = Vec::new();
        let mut i = self.lo;
        while i < self.hi
            invariant
                self.wf(),
                self.lo <= i <= self.hi,
                out@ == self@.take(i - self.lo),
            decreases self.hi - i,
        {
            let x = self.slots[i].unwrap();
            out.push(x);
            proof {
                assert(out@ =~= self@.take(i + 1 - self.lo));
            }
            i = i + 1;
        }
        proof {
            assert(self@.take(self@.len() as int) =~= self@);
        }
        out
    }

    /// Replaces the `i`-th not-yet-yielded value, handing back the one that
    /// was there.
    pub fn replace(&mut self, i: usize, x: T) -> (r: T)
        requires
            old(self).wf(),
            i < old(self)@.len(),
        ensures
            final(self).wf(),
            final(self).capacity() == old(self).capacity(),
            r == old(self)@[i as int],
            final(self)@ == old(self)@.update(i as int, x),
    {
        let r = self.slots[self.lo + i].unwrap();
        self.slots[self.lo + i] = Some(x);
        proof {
            assert(self@ =~= old(self)@.update(i as int, x));
        }
        r
    }
}

impl<T: Copy> Clone for IntoIter<T> {
    /// Copies only the live sub-range into a fresh buffer of the same
    /// capacity; the copy yields the same values and advances independently.
    fn clone(&self) -> (r: Self)
        ensures
            self.wf() ==> r.wf() && r@ == self@ && r.capacity() == self.capacity(),
    {
        if self.lo <= self.hi && self.hi <= self.slots.len() {
            let live = self.hi - self.lo;
            let mut slots: Vec<Option<T>> = Vec::new();
            let mut i = self.lo;
            while i < self.hi
                invariant
                    self.lo <= i <= self.hi <= self.slots@.len(),
                    slots@.len() == i - self.lo,
                    forall|j: int| 0 <= j < slots@.len() ==> slots@[j] == self.slots@[self.lo + j],
                decreases self.hi - i,
            {
                let x = self.slots[i];
                slots.push(x);
                i = i + 1;
            }
            while slots.len() < self.slots.len()
                invariant
                    live <= slots@.len() <= self.slots@.len(),
                    forall|j: int| 0 <= j < live ==> slots@[j] == self.slots@[self.lo + j],
                    forall|j: int| live <= j < slots@.len() ==> slots@[j] is None,
                decreases self.slots@.len() - slots@.len(),
        {
                slots.push(None);
            }
            let r = IntoIter { slots, lo: 0, hi: live };
            proof {
                if self.wf() {
                    assert(r@ =~= self@);
                }
            }
            r
        } else {
            IntoIter { slots: Vec::new(), lo: 0, hi: 0 }
        }
    }
}

} // verus!
