use vstd::prelude::*;

use crate::into_iter::IntoIter;

verus! {

/// Holds when every entry of `idx` grows strictly from left to right.
pub open spec fn strictly_increasing(idx: Seq<usize>) -> bool {
    forall|a: int, b: int| 0 <= a < b < idx.len() ==> idx[a] < idx[b]
}

/// Holds when `out` is exactly the entries of `pool` selected, in order, by
/// the index sequence `idx`.
pub open spec fn picked_at<T>(pool: Seq<T>, idx: Seq<usize>, out: Seq<T>) -> bool {
    &&& out.len() == idx.len()
    &&& forall|a: int|
        0 <= a < idx.len() ==> (idx[a] < pool.len() && out[a] == pool[idx[a] as int])
}

/// Holds when `idx` is the identity selection `0, 1, ..., len - 1`.
pub open spec fn identity_indices(idx: Seq<usize>) -> bool {
    forall|a: int| 0 <= a < idx.len() ==> idx[a] == a
}

/// Holds when every entry of `idx` is zero.
pub open spec fn zero_indices(idx: Seq<usize>) -> bool {
    forall|a: int| 0 <= a < idx.len() ==> idx[a] == 0
}

/// Holds when `idx` is the last strictly increasing selection from a pool of
/// `n` elements: every entry sits as far right as it can.
pub open spec fn maximal_indices(idx: Seq<usize>, n: int) -> bool {
    forall|a: int| 0 <= a < idx.len() ==> idx[a] == a + (n - idx.len())
}

/// Holds when every entry of `idx` points at the last of `n` pool elements:
/// the last selection with repetition from that pool.
pub open spec fn saturated_indices(idx: Seq<usize>, n: int) -> bool {
    forall|a: int| 0 <= a < idx.len() ==> idx[a] == n - 1
}

/// Holds when `a` comes strictly before `b` in lexicographic order: they
/// agree up to some position where `a` holds the smaller entry.
pub open spec fn lex_less(a: Seq<usize>, b: Seq<usize>) -> bool {
    &&& a.len() == b.len()
    &&& exists|i: int|
        0 <= i < a.len() && a.subrange(0, i) == b.subrange(0, i) && a[i] < b[i]
}

/// Holds when `a` equals `b` or comes before it lexicographically.
pub open spec fn lex_leq(a: Seq<usize>, b: Seq<usize>) -> bool {
    a == b || lex_less(a, b)
}

/// Holds when `b` steps `a` up at position `i`, for selections without
/// repetition from `n` pool elements: the entries agree before `i`, the
/// entry at `i` grows by one, every entry of `a` after `i` sat at its
/// largest admissible value, and `b` restarts the entries after `i` as low
/// as strict increase allows.
pub open spec fn step_at(a: Seq<usize>, b: Seq<usize>, n: int, i: int) -> bool {
    &&& 0 <= i < a.len()
    &&& a.subrange(0, i) == b.subrange(0, i)
    &&& b[i] == a[i] + 1
    &&& forall|t: int| i < t < a.len() ==> #[trigger] a[t] == t + (n - a.len())
    &&& forall|t: int| i < t < b.len() ==> #[trigger] b[t] == b[t - 1] + 1
}

/// Holds when `b` is the step after `a` among the strictly increasing
/// selections from `n` pool elements.
pub open spec fn combi_successor(a: Seq<usize>, b: Seq<usize>, n: int) -> bool {
    &&& a.len() == b.len()
    &&& exists|i: int| step_at(a, b, n, i)
}

/// Holds when `b` steps `a` up at position `i`, for selections with
/// repetition from `n` pool elements: the entries agree before `i`, the
/// entry at `i` grows by one, every entry of `a` after `i` pointed at the
/// last pool element, and `b` restarts the entries after `i` at zero.
pub open spec fn reps_step_at(a: Seq<usize>, b: Seq<usize>, n: int, i: int) -> bool {
    &&& 0 <= i < a.len()
    &&& a.subrange(0, i) == b.subrange(0, i)
    &&& b[i] == a[i] + 1
    &&& forall|t: int| i < t < a.len() ==> #[trigger] a[t] == n - 1
    &&& forall|t: int| i < t < b.len() ==> #[trigger] b[t] == 0
}

/// Holds when `b` is the step after `a` among the selections with
/// repetition from `n` pool elements.
pub open spec fn reps_successor(a: Seq<usize>, b: Seq<usize>, n: int) -> bool {
    &&& a.len() == b.len()
    &&& exists|i: int| reps_step_at(a, b, n, i)
}

#[derive(Debug)]
enum State {
    First,
    Normal,
    Done,
}

/// The engine shared by the combination adaptors, with and without
/// repetition.
///
/// The index vector reads as a number whose digits select positions in the
/// buffer of elements pulled from the source so far. Stepping that number
/// finds the next selection; the buffer grows only when a later selection
/// will need an element the source has not yielded yet.
#[derive(Debug)]
pub struct GenericCombinations<T> {
    iter: IntoIter<T>,
    comb: Vec<usize>,
    buf: Vec<T>,
    state: State,
}

impl<T> GenericCombinations<T> {
    /// How many elements each emitted selection holds.
    pub closed spec fn k(&self) -> nat {
        self.comb@.len()
    }

    /// The elements pulled from the source so far, in production order.
    pub closed spec fn pool(&self) -> Seq<T> {
        self.buf@
    }

    /// The elements the source still holds.
    pub closed spec fn upcoming(&self) -> Seq<T> {
        self.iter@
    }

    /// Every element this engine still owns, pooled or not yet pulled.
    pub open spec fn pending(&self) -> Seq<T> {
        self.pool() + self.upcoming()
    }

    /// The current index selection.
    pub closed spec fn indices(&self) -> Seq<usize> {
        self.comb@
    }

    /// Whether the engine has yet to emit its first selection.
    pub closed spec fn is_first(&self) -> bool {
        self.state is First
    }

    /// Whether the engine has finished for good.
    pub closed spec fn is_done(&self) -> bool {
        self.state is Done
    }

    /// Well-formedness for use without repetition: the indices stay strictly
    /// increasing and never exceed the largest selection the pool admits.
    pub closed spec fn wf_combi(&self) -> bool {
        &&& self.iter.wf()
        &&& self.comb@.len() >= 1
        &&& match self.state {
            State::First => {
                &&& identity_indices(self.comb@)
                &&& self.buf@.len() <= self.comb@.len()
            },
            State::Normal => {
                &&& self.buf@.len() >= self.comb@.len()
                &&& strictly_increasing(self.comb@)
                &&& forall|t: int|
                    0 <= t < self.comb@.len() ==> #[trigger] self.comb@[t] <= t + (
                    self.buf@.len() - self.comb@.len())
            },
            State::Done => true,
        }
    }

    /// Well-formedness for use with repetition: every index points into the
    /// pool while the engine runs.
    pub closed spec fn wf_reps(&self) -> bool {
        &&& self.iter.wf()
        &&& self.comb@.len() >= 1
        &&& match self.state {
            State::First => {
                &&& zero_indices(self.comb@)
                &&& self.buf@.len() == 0
            },
            State::Normal => {
                &&& self.buf@.len() >= 1
                &&& forall|t: int|
                    0 <= t < self.comb@.len() ==> #[trigger] self.comb@[t] < self.buf@.len()
            },
            State::Done => true,
        }
    }

    /// Wraps a source and a starting index selection; nothing is pulled yet.
    pub fn new(iter: IntoIter<T>, comb: Vec<usize>) -> (r: Self)
        requires
            iter.wf(),
        ensures
            r.pool().len() == 0,
            r.upcoming() == iter@,
            r.indices() == comb@,
            r.k() == comb@.len(),
            r.is_first(),
            !r.is_done(),
            identity_indices(comb@) && comb@.len() >= 1 ==> r.wf_combi(),
            zero_indices(comb@) && comb@.len() >= 1 ==> r.wf_reps(),
    {
        GenericCombinations { iter, comb, buf: Vec::new(), state: State::First }
    }
}

impl<T: Copy> GenericCombinations<T> {
    /// Copies out the currently selected elements.
    fn emit(&self) -> (out: Vec<T>)
        requires
            forall|t: int|
                0 <= t < self.comb@.len() ==> #[trigger] self.comb@[t] < self.buf@.len(),
        ensures
            out@.len() == self.k(),
            picked_at(self.pool(), self.indices(), out@),
    {
        let mut out: Vec<T> = Vec::new();
        let mut idx: usize = 0;
        while idx < self.comb.len()
            invariant
                idx <= self.comb@.len(),
                out@.len() == idx,
                forall|t: int|
                    0 <= t < self.comb@.len() ==> #[trigger] self.comb@[t] < self.buf@.len(),
                forall|a: int| 0 <= a < idx ==> out@[a] == self.buf@[self.comb@[a] as int],
            decreases self.comb@.len() - idx,
        {
            let d = self.comb[idx];
            out.push(self.buf[d]);
            idx = idx + 1;
        }
        out
    }

    /// Steps to the next selection without repetition and hands back the
    /// selected elements: a strictly increasing pick from the pool. Once the
    /// result is `None` the source is exhausted; the selection sequence of
    /// elements already pooled has then run out.
    pub fn fill_next(&mut self) -> (r: Option<Vec<T>>)
        requires
            old(self).wf_combi(),
        ensures
            final(self).wf_combi(),
            final(self).k() == old(self).k(),
            final(self).pending() == old(self).pending(),
            old(self).is_done() ==> r is None && *final(self) == *old(self),
            !old(self).is_done() ==> !final(self).is_done(),
            r matches Some(out) ==> {
                &&& out@.len() == old(self).k()
                &&& strictly_increasing(final(self).indices())
                &&& picked_at(final(self).pool(), final(self).indices(), out@)
                &&& !final(self).is_done()
            },
            old(self).is_first() && r is Some ==> final(self).indices() == old(self).indices(),
            !old(self).is_first() && !old(self).is_done() && r is Some ==> lex_less(
                old(self).indices(),
                final(self).indices(),
            ) && combi_successor(
                old(self).indices(),
                final(self).indices(),
                final(self).pool().len() as int,
            ),
            old(self).is_first() ==> ((r is Some) <==> old(self).pending().len() >= old(self).k()),
            !old(self).is_done() && !old(self).is_first() ==> ((r is None) <==> (
            old(self).upcoming().len() == 0 && maximal_indices(
                old(self).indices(),
                old(self).pool().len() as int,
            ))),
            r is None ==> final(self).is_done() || final(self).upcoming().len() == 0,
    {
        let k = self.comb.len();
        match self.state {
            State::Done => None,
            State::First => {
                while self.buf.len() < k
                    invariant
                        old(self).wf_combi(),
                        old(self).is_first(),
                        self.comb@ == old(self).comb@,
                        self.state is First,
                        self.iter.wf(),
                        self.buf@.len() <= k,
                        k == old(self).comb@.len(),
                        self.buf@ + self.iter@ == old(self).pending(),
                    decreases k - self.buf@.len(),
                {
                    match self.iter.next() {
                        Some(x) => {
                            self.buf.push(x);
                            proof {
                                assert(self.buf@ + self.iter@ =~= old(self).pending());
                            }
                        }
                        None => {
                            return None;
                        }
                    }
                }
                self.state = State::Normal;
                Some(self.emit())
            }
            State::Normal => {
                let n0 = self.buf.len();
                let d = self.comb[k - 1];
                if d == n0 - 1 {
                    match self.iter.next() {
                        Some(item) => {
                            self.buf.push(item);
                            proof {
                                assert(self.buf@ + self.iter@ =~= old(self).pending());
                            }
                        }
                        None => {}
                    }
                }
                let n = self.buf.len();
                let ghost mid = *self;

                proof {
                    assert(self.comb@[k - 1] == n - 1 ==> self.iter@.len() == 0);
                }

                // Find the rightmost index that has not reached its final
                // value for a pool of n elements; k is the sentinel for
                // "none".
                let mut found: usize = k;
                let mut j: usize = k;
                while j > 0
                    invariant_except_break
                        *self == mid,
                        k == self.comb@.len(),
                        n == self.buf@.len(),
                        self.wf_combi(),
                        self.state is Normal,
                        j <= k,
                        found == k,
                        forall|t: int| j <= t < k ==> #[trigger] self.comb@[t] == t + (n - k),
                    ensures
                        *self == mid,
                        k == self.comb@.len(),
                        n == self.buf@.len(),
                        self.wf_combi(),
                        self.state is Normal,
                        found <= k,
                        found == k ==> self.comb@[k - 1] == n - 1,
                        found == k ==> forall|t: int|
                            0 <= t < k ==> #[trigger] self.comb@[t] == t + (n - k),
                        found < k ==> self.comb@[found as int] != found + (n - k),
                        found < k ==> forall|t: int|
                            found < t < k ==> #[trigger] self.comb@[t] == t + (n - k),
                    decreases j,
                {
                    let jj = j - 1;
                    if self.comb[jj] != jj + (n - k) {
                        found = jj;
                        break;
                    }
                    j = jj;
                }
                if found == k {
                    proof {
                        if n != n0 {
                            assert(self.comb@[k - 1] <= (k - 1) + (n0 - k));
                            assert(false);
                        }
                        assert(old(self).upcoming().len() == 0);
                    }
                    return None;
                }

                // Increment the found digit and restart every digit to its
                // right just above its left neighbour.
                let newv = self.comb[found] + 1;
                self.comb[found] = newv;
                let mut j: usize = found + 1;
                while j < k
                    invariant
                        found < j <= k,
                        k == self.comb@.len(),
                        k == mid.comb@.len(),
                        n == self.buf@.len(),
                        n >= k >= 1,
                        self.iter.wf(),
                        self.state is Normal,
                        self.buf@ == mid.buf@,
                        self.iter@ == mid.iter@,
                        forall|t: int| 0 <= t < found ==> self.comb@[t] == mid.comb@[t],
                        self.comb@[found as int] == mid.comb@[found as int] + 1,
                        forall|a: int, b: int| 0 <= a < b < j ==> self.comb@[a] < self.comb@[b],
                        forall|t: int| found < t < j ==> #[trigger] self.comb@[t] == self.comb@[t - 1] + 1,
                        forall|t: int|
                            0 <= t < j ==> #[trigger] self.comb@[t] <= t + (n - k),
                        forall|t: int| j <= t < k ==> self.comb@[t] == mid.comb@[t],
                    decreases k - j,
                {
                    let prev = self.comb[j - 1];
                    self.comb[j] = prev + 1;
                    j = j + 1;
                }
                proof {
                    assert(self.pending() =~= old(self).pending());
                    assert(old(self).indices().subrange(0, found as int) == self.comb@.subrange(
                        0,
                        found as int,
                    )) by {
                        assert(old(self).indices().subrange(0, found as int) =~= self.comb@.subrange(
                            0,
                            found as int,
                        ));
                    }
                    assert(lex_less(old(self).indices(), self.comb@));
                    assert(step_at(old(self).indices(), self.comb@, n as int, found as int));
                    assert(combi_successor(old(self).indices(), self.comb@, n as int));
                }
                Some(self.emit())
            }
        }
    }

    /// Steps to the next selection with repetition and hands back the
    /// selected elements: each one picked from the pool, repeats allowed.
    /// The result is `None` exactly when the engine is finished for good:
    /// either the source was empty from the start, or every selection over
    /// the pool has been emitted.
    pub fn fill_next_with_reps(&mut self) -> (r: Option<Vec<T>>)
        requires
            old(self).wf_reps(),
        ensures
            final(self).wf_reps(),
            final(self).k() == old(self).k(),
            old(self).is_done() ==> *final(self) == *old(self),
            r matches Some(out) ==> {
                &&& out@.len() == old(self).k()
                &&& picked_at(final(self).pool(), final(self).indices(), out@)
            },
            old(self).is_first() && r is Some ==> final(self).indices() == old(self).indices(),
            !old(self).is_first() && !old(self).is_done() && r is Some ==> lex_less(
                old(self).indices(),
                final(self).indices(),
            ) && reps_successor(
                old(self).indices(),
                final(self).indices(),
                final(self).pool().len() as int,
            ),
            old(self).is_first() ==> ((r is Some) <==> old(self).pending().len() >= 1),
            !old(self).is_done() && !old(self).is_first() ==> ((r is None) <==> (
            old(self).upcoming().len() == 0 && saturated_indices(
                old(self).indices(),
                old(self).pool().len() as int,
            ))),
            r is None <==> final(self).is_done(),
    {
        let k = self.comb.len();
        match self.state {
            State::Done => None,
            State::First => {
                match self.iter.next() {
                    Some(item) => {
                        self.buf.push(item);
                        self.state = State::Normal;
                        Some(self.emit())
                    }
                    None => {
                        self.state = State::Done;
                        None
                    }
                }
            }
            State::Normal => {
                match self.iter.next() {
                    Some(item) => {
                        self.buf.push(item);
                    }
                    None => {}
                }
                let n = self.buf.len();

                let ghost mid = *self;
                let ghost n0 = old(self).buf@.len() as int;

                // Step the index vector as a base-n counter from the right;
                // when it wraps all the way around, everything was emitted.
                let mut j: usize = k;
                let mut carrying = true;
                while j > 0
                    invariant_except_break
                        carrying,
                        forall|t: int| j <= t < k ==> #[trigger] mid.comb@[t] == n - 1,
                        forall|t: int| 0 <= t < j ==> self.comb@[t] == mid.comb@[t],
                    invariant
                        j <= k,
                        k == self.comb@.len(),
                        k == mid.comb@.len(),
                        n == self.buf@.len(),
                        n >= 1,
                        self.iter.wf(),
                        self.iter@ == mid.iter@,
                        self.buf@ == mid.buf@,
                        self.state is Normal,
                        forall|t: int| j <= t < k ==> #[trigger] self.comb@[t] == 0,
                        forall|t: int|
                            0 <= t < k ==> #[trigger] self.comb@[t] < self.buf@.len(),
                    ensures
                        carrying ==> j == 0 && forall|t: int|
                            0 <= t < k ==> #[trigger] mid.comb@[t] == n - 1,
                        !carrying ==> exists|t: int| 0 <= t < k && #[trigger] mid.comb@[t] < n - 1,
                        !carrying ==> lex_less(mid.comb@, self.comb@),
                        !carrying ==> reps_successor(mid.comb@, self.comb@, n as int),
                    decreases j,
                {
                    let jj = j - 1;
                    let d = self.comb[jj] + 1;
                    if d < n {
                        proof {
                            assert(mid.comb@[jj as int] < n - 1);
                        }
                        self.comb[jj] = d;
                        proof {
                            assert(mid.comb@.subrange(0, jj as int) == self.comb@.subrange(
                                0,
                                jj as int,
                            )) by {
                                assert(mid.comb@.subrange(0, jj as int) =~= self.comb@.subrange(
                                    0,
                                    jj as int,
                                ));
                            }
                            assert(lex_less(mid.comb@, self.comb@));
                            assert(reps_step_at(mid.comb@, self.comb@, n as int, jj as int));
                        }
                        carrying = false;
                        break;
                    }
                    self.comb[jj] = 0;
                    j = jj;
                }
                if carrying {
                    proof {
                        if n != n0 {
                            assert(mid.comb@[k - 1] <= n0 - 1);
                            assert(false);
                        }
                        assert(old(self).upcoming().len() == 0);
                    }
                    self.buf.clear();
                    self.state = State::Done;
                    return None;
                }
                proof {
                    if old(self).upcoming().len() == 0 && saturated_indices(
                        old(self).indices(),
                        old(self).pool().len() as int,
                    ) {
                        let t = choose|t: int| 0 <= t < k && #[trigger] mid.comb@[t] < n - 1;
                        assert(mid.comb@[t] == n0 - 1);
                        assert(false);
                    }
                }
                Some(self.emit())
            }
        }
    }
}

/// A strictly increasing sequence grows by at least one per position.
proof fn lemma_increase_gap(c: Seq<usize>, x: int, y: int)
    requires
        strictly_increasing(c),
        0 <= x <= y < c.len(),
    ensures
        c[x] + (y - x) <= c[y],
    decreases y - x,
{
    if x < y {
        lemma_increase_gap(c, x, y - 1);
    }
}

/// A run of consecutive entries has the closed form `b[i] + (t - i)`.
proof fn lemma_consecutive_run(b: Seq<usize>, i: int, t: int)
    requires
        forall|u: int| i < u < b.len() ==> #[trigger] b[u] == b[u - 1] + 1,
        0 <= i <= t < b.len(),
    ensures
        b[t] == b[i] + (t - i),
    decreases t - i,
{
    if i < t {
        lemma_consecutive_run(b, i, t - 1);
    }
}

/// Two different sequences that agree on a prefix disagree first at some
/// position at or after it.
proof fn lemma_first_difference(b: Seq<usize>, c: Seq<usize>, j: int)
    requires
        b.len() == c.len(),
        0 <= j <= b.len(),
        b.subrange(0, j) == c.subrange(0, j),
        b != c,
    ensures
        exists|t0: int|
            j <= t0 < b.len() && b.subrange(0, t0) == c.subrange(0, t0) && b[t0] != c[t0],
    decreases b.len() - j,
{
    if j == b.len() {
        assert forall|t: int| 0 <= t < b.len() implies b[t] == c[t] by {
            assert(b.subrange(0, j)[t] == b[t]);
            assert(c.subrange(0, j)[t] == c[t]);
            assert(b.subrange(0, j)[t] == c.subrange(0, j)[t]);
        }
        assert(b =~= c);
        assert(false);
    } else if b[j] != c[j] {
        assert(j <= j < b.len() && b.subrange(0, j) == c.subrange(0, j) && b[j] != c[j]);
    } else {
        assert(b.subrange(0, j + 1) =~= c.subrange(0, j + 1)) by {
            assert(forall|t: int|
                0 <= t < j ==> #[trigger] b.subrange(0, j)[t] == c.subrange(0, j)[t]);
        }
        lemma_first_difference(b, c, j + 1);
    }
}

/// The step relation skips nothing: a selection that lies strictly beyond
/// the old one lies at or beyond its step. Together with the step emitted
/// by each successful draw, this pins the enumeration: the selections come
/// out in lexicographic order with no valid selection passed over.
pub proof fn lemma_successor_minimal(a: Seq<usize>, b: Seq<usize>, c: Seq<usize>, n: int)
    requires
        combi_successor(a, b, n),
        c.len() == a.len(),
        strictly_increasing(c),
        forall|t: int| 0 <= t < c.len() ==> #[trigger] c[t] < n,
        lex_less(a, c),
    ensures
        lex_leq(b, c),
{
    let k = a.len() as int;
    let i = choose|i: int| step_at(a, b, n, i);
    let m = choose|m: int|
        0 <= m < a.len() && a.subrange(0, m) == c.subrange(0, m) && #[trigger] a[m] < c[m];
    assert forall|t: int| 0 <= t < i implies a[t] == b[t] by {
        assert(a.subrange(0, i)[t] == b.subrange(0, i)[t]);
    }
    assert forall|t: int| 0 <= t < m implies a[t] == c[t] by {
        assert(a.subrange(0, m)[t] == c.subrange(0, m)[t]);
    }
    if m < i {
        assert(b.subrange(0, m) =~= c.subrange(0, m));
        assert(b[m] < c[m]);
        assert(lex_less(b, c)) by {
            assert(0 <= m < b.len() && b.subrange(0, m) == c.subrange(0, m) && b[m] < c[m]);
        }
    } else if m > i {
        assert(a[m] == m + (n - k));
        lemma_increase_gap(c, m, k - 1);
        assert(c[m] <= m + (n - k));
        assert(false);
    } else {
        assert(c[i] >= a[i] + 1);
        if c[i] > b[i] {
            assert(b.subrange(0, i) =~= c.subrange(0, i));
            assert(lex_less(b, c)) by {
                assert(0 <= i < b.len() && b.subrange(0, i) == c.subrange(0, i) && b[i] < c[i]);
            }
        } else {
            assert(c[i] == b[i]);
            assert(forall|t: int| i <= t < k ==> #[trigger] c[t] >= b[t]) by {
                assert forall|t: int| i <= t < k implies #[trigger] c[t] >= b[t] by {
                    lemma_increase_gap(c, i, t);
                    lemma_consecutive_run(b, i, t);
                }
            }
            if b == c {
                assert(lex_leq(b, c));
            } else {
                assert(b.subrange(0, i + 1) =~= c.subrange(0, i + 1));
                lemma_first_difference(b, c, i + 1);
                let t0 = choose|t0: int|
                    i + 1 <= t0 < b.len() && b.subrange(0, t0) == c.subrange(0, t0)
                        && #[trigger] b[t0] != c[t0];
                assert(c[t0] > b[t0]);
                assert(lex_less(b, c)) by {
                    assert(0 <= t0 < b.len() && b.subrange(0, t0) == c.subrange(0, t0) && b[t0]
                        < c[t0]);
                }
            }
        }
    }
}

/// The with-repetition step relation skips nothing either: a selection with
/// repetition that lies strictly beyond the old one lies at or beyond its
/// step.
pub proof fn lemma_reps_successor_minimal(a: Seq<usize>, b: Seq<usize>, c: Seq<usize>, n: int)
    requires
        reps_successor(a, b, n),
        c.len() == a.len(),
        forall|t: int| 0 <= t < c.len() ==> #[trigger] c[t] < n,
        lex_less(a, c),
    ensures
        lex_leq(b, c),
{
    let k = a.len() as int;
    let i = choose|i: int| reps_step_at(a, b, n, i);
    let m = choose|m: int|
        0 <= m < a.len() && a.subrange(0, m) == c.subrange(0, m) && #[trigger] a[m] < c[m];
    assert forall|t: int| 0 <= t < i implies a[t] == b[t] by {
        assert(a.subrange(0, i)[t] == b.subrange(0, i)[t]);
    }
    assert forall|t: int| 0 <= t < m implies a[t] == c[t] by {
        assert(a.subrange(0, m)[t] == c.subrange(0, m)[t]);
    }
    if m < i {
        assert(b.subrange(0, m) =~= c.subrange(0, m));
        assert(lex_less(b, c)) by {
            assert(0 <= m < b.len() && b.subrange(0, m) == c.subrange(0, m) && b[m] < c[m]);
        }
    } else if m > i {
        assert(a[m] == n - 1);
        assert(false);
    } else {
        assert(c[i] >= a[i] + 1);
        if c[i] > b[i] {
            assert(b.subrange(0, i) =~= c.subrange(0, i));
            assert(lex_less(b, c)) by {
                assert(0 <= i < b.len() && b.subrange(0, i) == c.subrange(0, i) && b[i] < c[i]);
            }
        } else {
            assert(c[i] == b[i]);
            if b == c {
                assert(lex_leq(b, c));
            } else {
                assert(b.subrange(0, i + 1) =~= c.subrange(0, i + 1));
                lemma_first_difference(b, c, i + 1);
                let t0 = choose|t0: int|
                    i + 1 <= t0 < b.len() && b.subrange(0, t0) == c.subrange(0, t0)
                        && #[trigger] b[t0] != c[t0];
                assert(b[t0] == 0);
                assert(lex_less(b, c)) by {
                    assert(0 <= t0 < b.len() && b.subrange(0, t0) == c.subrange(0, t0) && b[t0]
                        < c[t0]);
                }
            }
        }
    }
}

impl<T: Copy> Clone for GenericCombinations<T> {
    /// Copies the source cursor, the pool and the index selection; the copy
    /// steps through the remaining selections independently.
    fn clone(&self) -> (r: Self)
        ensures
            self.wf_combi() || self.wf_reps() ==> {
                &&& r.pool() == self.pool()
                &&& r.upcoming() == self.upcoming()
                &&& r.indices() == self.indices()
                &&& r.k() == self.k()
                &&& r.is_first() == self.is_first()
                &&& r.is_done() == self.is_done()
                &&& (self.wf_combi() ==> r.wf_combi())
                &&& (self.wf_reps() ==> r.wf_reps())
            },
    {
        let mut buf: Vec<T> = Vec::new();
        let mut i: usize = 0;
        while i < self.buf.len()
            invariant
                i <= self.buf@.len(),
                buf@ == self.buf@.take(i as int),
            decreases self.buf@.len() - i,
        {
            buf.push(self.buf[i]);
            proof {
                assert(buf@ =~= self.buf@.take(i + 1));
            }
            i = i + 1;
        }
        proof {
            assert(self.buf@.take(self.buf@.len() as int) =~= self.buf@);
        }
        let state = match self.state {
            State::First => State::First,
            State::Normal => State::Normal,
            State::Done => State::Done,
        };
        GenericCombinations { iter: self.iter.clone(), comb: self.comb.clone(), buf, state }
    }
}

} // verus!
