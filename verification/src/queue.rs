//! Bounded FIFO buffer of raw event lines.
//!
//! A single producer pushes trimmed lines; a periodic consumer drains them.
//! The capacity is a hard upper bound: a push at capacity evicts the oldest
//! line instead of blocking or growing.

use vstd::prelude::*;

verus! {

/// What one push does to the buffered lines `q` under capacity `cap`:
/// at capacity the oldest line is evicted before the new one is appended,
/// and a buffer of capacity zero stays empty.
pub open spec fn push_bounded(q: Seq<Seq<char>>, cap: nat, x: Seq<char>) -> Seq<Seq<char>> {
    if cap == 0 {
        q
    } else if q.len() < cap {
        q.push(x)
    } else {
        q.skip(1).push(x)
    }
}

/// All of `xs` pushed in order onto `q` under capacity `cap`.
pub open spec fn push_all_bounded(q: Seq<Seq<char>>, cap: nat, xs: Seq<Seq<char>>) -> Seq<Seq<char>>
    decreases xs.len(),
{
    if xs.len() == 0 {
        q
    } else {
        push_all_bounded(push_bounded(q, cap, xs[0]), cap, xs.skip(1))
    }
}

/// Fixed-capacity FIFO cache of raw lines pulled from the event stream.
pub struct PipeCache {
    events: Vec<String>,
    capacity: usize,
}

impl PipeCache {
    /// The buffered lines, oldest first.
    pub closed spec fn lines(self) -> Seq<Seq<char>> {
        self.events@.map_values(|s: String| s@)
    }

    /// The configured capacity.
    pub closed spec fn cap(self) -> nat {
        self.capacity as nat
    }

    /// The buffer never holds more lines than its capacity.
    pub closed spec fn wf(self) -> bool {
        self.events@.len() <= self.capacity
    }

    /// Create an empty cache with the given hard capacity.
    pub fn new(capacity: usize) -> (r: Self)
        ensures
            r.wf(),
            r.cap() == capacity,
            r.lines() =~= Seq::<Seq<char>>::empty(),
    {
        PipeCache { events: Vec::new(), capacity }
    }

    /// Append one line; at capacity the oldest line is evicted first.
    pub fn push(&mut self, line: String)
        requires
            old(self).wf(),
        ensures
            final(self).wf(),
            final(self).cap() == old(self).cap(),
            final(self).lines() =~= push_bounded(old(self).lines(), old(self).cap(), line@),
    {
        if self.capacity == 0 {
            return;
        }
        if self.events.len() == self.capacity {
            self.events.remove(0);
        }
        self.events.push(line);
        proof {
            assert(self.lines() =~= push_bounded(old(self).lines(), old(self).cap(), line@));
        }
    }

    /// Trim the raw line; push it only if something is left. Returns whether
    /// the line was kept, so the caller can tee kept lines to a log.
    pub fn offer(&mut self, raw: &str) -> (kept: bool)
        requires
            old(self).wf(),
        ensures
            final(self).wf(),
            final(self).cap() == old(self).cap(),
            kept == (crate::text::trimmed_view(raw@).len() > 0),
            kept ==> final(self).lines() =~= push_bounded(
                old(self).lines(),
                old(self).cap(),
                crate::text::trimmed_view(raw@),
            ),
            !kept ==> final(self).lines() =~= old(self).lines(),
    {
        let t = crate::text::trim_line(raw);
        if t.as_str().unicode_len() == 0 {
            false
        } else {
            self.push(t);
            true
        }
    }

    /// Copies of all buffered lines, oldest first; the buffer is unchanged.
    pub fn get_all(&self) -> (r: Vec<String>)
        ensures
            r@.map_values(|s: String| s@) =~= self.lines(),
    {
        let mut r: Vec<String> = Vec::new();
        let mut i: usize = 0;
        while i < self.events.len()
            invariant
                i <= self.events@.len(),
                r@.len() == i,
                forall|j: int| 0 <= j < i ==> r@[j]@ == self.events@[j]@,
            decreases self.events@.len() - i,
        {
            r.push(self.events[i].clone());
            i = i + 1;
        }
        r
    }

    /// Copies of the most recent `n` lines (all of them if fewer), oldest first.
    pub fn get_last_n(&self, n: usize) -> (r: Vec<String>)
        ensures
            r@.map_values(|s: String| s@) =~= self.lines().skip(
                if self.lines().len() <= n { 0 } else { self.lines().len() - n as int },
            ),
    {
        let start: usize = if self.events.len() <= n {
            0
        } else {
            self.events.len() - n
        };
        let mut r: Vec<String> = Vec::new();
        let mut i: usize = start;
        while i < self.events.len()
            invariant
                start <= i <= self.events@.len(),
                r@.len() == i - start,
                forall|j: int| 0 <= j < r@.len() ==> r@[j]@ == self.events@[start + j]@,
            decreases self.events@.len() - i,
        {
            r.push(self.events[i].clone());
            i = i + 1;
        }
        r
    }

    /// A copy of the most recent line, if any.
    pub fn get_latest(&self) -> (r: Option<String>)
        ensures
            self.lines().len() == 0 ==> r is None,
            self.lines().len() > 0 ==> r is Some && r->Some_0@ == self.lines().last(),
    {
        if self.events.len() == 0 {
            None
        } else {
            Some(self.events[self.events.len() - 1].clone())
        }
    }

    /// Remove and return the oldest line, if any.
    pub fn pop_front(&mut self) -> (r: Option<String>)
        requires
            old(self).wf(),
        ensures
            final(self).wf(),
            final(self).cap() == old(self).cap(),
            old(self).lines().len() == 0 ==> r is None && final(self).lines() =~= old(self).lines(),
            old(self).lines().len() > 0 ==> r is Some && r->Some_0@ == old(self).lines()[0]
                && final(self).lines() =~= old(self).lines().skip(1),
    {
        if self.events.len() == 0 {
            None
        } else {
            Some(self.events.remove(0))
        }
    }

    /// Atomically remove and return every buffered line in FIFO order,
    /// leaving the buffer empty. A second drain right after returns nothing.
    pub fn drain_all(&mut self) -> (r: Vec<String>)
        requires
            old(self).wf(),
        ensures
            final(self).wf(),
            final(self).cap() == old(self).cap(),
            final(self).lines() =~= Seq::<Seq<char>>::empty(),
            r@.map_values(|s: String| s@) =~= old(self).lines(),
    {
        let mut out: Vec<String> = Vec::new();
        core::mem::swap(&mut self.events, &mut out);
        out
    }

    /// The number of buffered lines.
    pub fn len(&self) -> (r: usize)
        ensures
            r == self.lines().len(),
    {
        self.events.len()
    }

    /// Whether nothing is buffered.
    pub fn is_empty(&self) -> (r: bool)
        ensures
            r == (self.lines().len() == 0),
    {
        self.events.len() == 0
    }

    /// The lines on which the predicate returned true, oldest first.
    /// `keep` records the predicate's verdict on each buffered line.
    pub fn filter<F: Fn(&str) -> bool>(&self, predicate: F) -> (r: Vec<String>)
        requires
            forall|s: &str| #[trigger] predicate.requires((s,)),
        ensures
            exists|keep: Seq<bool>|
                keep.len() == self.lines().len() && (forall|j: int| #![trigger keep[j]]
                    0 <= j < keep.len() ==> verdict_witnessed(predicate, self.lines()[j], keep[j]))
                    && r@.map_values(|s: String| s@) =~= kept_lines(self.lines(), keep),
    {
        let mut r: Vec<String> = Vec::new();
        let mut i: usize = 0;
        let ghost mut keep: Seq<bool> = Seq::empty();
        while i < self.events.len()
            invariant
                i <= self.events@.len(),
                keep.len() == i,
                forall|s: &str| #[trigger] predicate.requires((s,)),
                forall|j: int| #![trigger keep[j]] 0 <= j < i ==> verdict_witnessed(
                    predicate,
                    self.lines()[j],
                    keep[j],
                ),
                r@.map_values(|s: String| s@) =~= kept_lines(self.lines().take(i as int), keep),
            decreases self.events@.len() - i,
        {
            let line = &self.events[i];
            let line_ref = line.as_str();
            let verdict = predicate(line_ref);
            if verdict {
                r.push(line.clone());
            }
            proof {
                let old_keep = keep;
                keep = keep.push(verdict);
                let q1 = self.lines().take(i + 1 as int);
                assert(q1.drop_last() =~= self.lines().take(i as int));
                assert(q1.last() == self.lines()[i as int]);
                assert(keep[i as int] == verdict);
                lemma_kept_lines_agree(self.lines().take(i as int), keep, old_keep);
                assert(r@.map_values(|s: String| s@) =~= kept_lines(q1, keep));
                assert forall|j: int| #![trigger keep[j]] 0 <= j < i + 1 implies verdict_witnessed(
                    predicate,
                    self.lines()[j],
                    keep[j],
                ) by {
                    if j < i {
                        assert(verdict_witnessed(predicate, self.lines()[j], old_keep[j]));
                        assert(keep[j] == old_keep[j]);
                    } else {
                        assert(line_ref@ == self.lines()[j] && predicate.ensures(
                            (line_ref,),
                            keep[j],
                        ));
                    }
                }
            }
            i = i + 1;
        }
        proof {
            assert(self.lines().take(self.events@.len() as int) =~= self.lines());
            assert(keep.len() == self.lines().len() && (forall|j: int| #![trigger keep[j]]
                0 <= j < keep.len() ==> verdict_witnessed(predicate, self.lines()[j], keep[j]))
                && r@.map_values(|s: String| s@) =~= kept_lines(self.lines(), keep));
        }
        r
    }

    /// The lines that contain `search` as a contiguous substring, oldest first.
    pub fn find_containing(&self, search: &str) -> (r: Vec<String>)
        ensures
            r@.map_values(|s: String| s@) =~= kept_lines(
                self.lines(),
                Seq::new(self.lines().len(), |j: int| contains_seq(self.lines()[j], search@)),
            ),
    {
        let mut r: Vec<String> = Vec::new();
        let mut i: usize = 0;
        while i < self.events.len()
            invariant
                i <= self.events@.len(),
                r@.map_values(|s: String| s@) =~= kept_lines(
                    self.lines().take(i as int),
                    Seq::new(i as nat, |j: int| contains_seq(self.lines()[j], search@)),
                ),
            decreases self.events@.len() - i,
        {
            let line = &self.events[i];
            let verdict = crate::text::contains_str(line.as_str(), search);
            if verdict {
                r.push(line.clone());
            }
            proof {
                let keep_i = Seq::new(i as nat, |j: int| contains_seq(self.lines()[j], search@));
                let keep_i1 = Seq::new(
                    (i + 1) as nat,
                    |j: int| contains_seq(self.lines()[j], search@),
                );
                let q1 = self.lines().take(i + 1 as int);
                assert(q1.drop_last() =~= self.lines().take(i as int));
                assert(q1.last() == self.lines()[i as int]);
                assert(keep_i1[i as int] == verdict);
                lemma_kept_lines_agree(self.lines().take(i as int), keep_i1, keep_i);
                assert(r@.map_values(|s: String| s@) =~= kept_lines(q1, keep_i1));
            }
            i = i + 1;
        }
        proof {
            assert(self.lines().take(self.events@.len() as int) =~= self.lines());
            assert(Seq::new(self.events@.len() as nat, |j: int| contains_seq(self.lines()[j], search@))
                =~= Seq::new(self.lines().len(), |j: int| contains_seq(self.lines()[j], search@)));
        }
        r
    }
}

/// The lines of `q` whose entry in `keep` is true, in order.
pub open spec fn kept_lines(q: Seq<Seq<char>>, keep: Seq<bool>) -> Seq<Seq<char>>
    decreases q.len(),
{
    if q.len() == 0 || keep.len() < q.len() {
        Seq::empty()
    } else {
        if keep[q.len() - 1] {
            kept_lines(q.drop_last(), keep).push(q.last())
        } else {
            kept_lines(q.drop_last(), keep)
        }
    }
}

/// The predicate was called on some string with this view and returned `v`.
pub open spec fn verdict_witnessed<F: Fn(&str) -> bool>(p: F, l: Seq<char>, v: bool) -> bool {
    exists|a: &str| a@ == l && #[trigger] p.ensures((a,), v)
}

/// `kept_lines` reads `keep` only at the positions of `q`.
proof fn lemma_kept_lines_agree(q: Seq<Seq<char>>, k1: Seq<bool>, k2: Seq<bool>)
    requires
        k1.len() >= q.len(),
        k2.len() >= q.len(),
        forall|j: int| 0 <= j < q.len() ==> k1[j] == k2[j],
    ensures
        kept_lines(q, k1) == kept_lines(q, k2),
    decreases q.len(),
{
    if q.len() > 0 {
        lemma_kept_lines_agree(q.drop_last(), k1, k2);
    }
}

/// `needle` occurs as a contiguous substring of `hay`.
pub open spec fn contains_seq(hay: Seq<char>, needle: Seq<char>) -> bool {
    exists|k: int|
        0 <= k <= hay.len() - needle.len() && (#[trigger] hay.subrange(k, k + needle.len()))
            =~= needle
}

/// Draining empties the buffer, so a second drain right after the first
/// returns nothing: the two pairs of arguments stand for the two calls of
/// `drain_all`, each related to its result as the contract of `drain_all`
/// states.
pub proof fn lemma_drain_all_idempotent(
    c0: PipeCache,
    c1: PipeCache,
    r1: Seq<Seq<char>>,
    c2: PipeCache,
    r2: Seq<Seq<char>>,
)
    requires
        c1.lines() == Seq::<Seq<char>>::empty(),
        r1 == c0.lines(),
        c2.lines() == Seq::<Seq<char>>::empty(),
        r2 == c1.lines(),
    ensures
        r2 == Seq::<Seq<char>>::empty(),
{
}

/// A buffer that always stays within capacity retains exactly the last `cap`
/// pushed lines, in arrival order, once at least `cap` lines have been pushed
/// on top of a full buffer's history: pushing `xs` onto any in-capacity state
/// leaves exactly the last `cap` elements of the combined history.
pub proof fn lemma_push_all_retains_last_cap(q: Seq<Seq<char>>, cap: nat, xs: Seq<Seq<char>>)
    requires
        q.len() <= cap,
        cap > 0,
        xs.len() >= cap,
    ensures
        push_all_bounded(q, cap, xs) =~= xs.skip(xs.len() - cap),
    decreases xs.len(),
{
    lemma_push_all_suffix(q, cap, xs);
    let r = push_all_bounded(q, cap, xs);
    assert((q + xs).skip(q.len() + xs.len() - cap) =~= xs.skip(xs.len() - cap));
}

/// After pushing `xs`, the buffer holds the last `min(cap, |q|+|xs|)` elements
/// of the combined history `q + xs`.
pub proof fn lemma_push_all_suffix(q: Seq<Seq<char>>, cap: nat, xs: Seq<Seq<char>>)
    requires
        q.len() <= cap,
        cap > 0,
    ensures
        push_all_bounded(q, cap, xs) =~= if q.len() + xs.len() <= cap {
            q + xs
        } else {
            (q + xs).skip(q.len() + xs.len() - cap)
        },
    decreases xs.len(),
{
    if xs.len() == 0 {
        assert(q + xs =~= q);
    } else {
        let q1 = push_bounded(q, cap, xs[0]);
        lemma_push_all_suffix(q1, cap, xs.skip(1));
        if q.len() < cap {
            assert(q1 =~= q.push(xs[0]));
            assert(q1 + xs.skip(1) =~= q + xs);
        } else {
            assert(q1 =~= q.skip(1).push(xs[0]));
            assert(q1 + xs.skip(1) =~= (q + xs).skip(1));
            if q1.len() + xs.skip(1).len() <= cap {
                assert(push_all_bounded(q, cap, xs) =~= q1 + xs.skip(1));
                assert((q + xs).skip(q.len() + xs.len() - cap) =~= (q + xs).skip(1));
            }
        }
    }
}

} // verus!
