//! The work partitioner: a cursor over `[0, len)` that hands out
//! non-overlapping chunks of at most `step` indices, so that the
//! claimed ranges tile the whole interval with no gaps and no overlaps.

use vstd::prelude::*;

verus! {

/// A claim cursor over the flat index range `[0, len)`. Each call to
/// `next` claims the next chunk of at most `step` indices; the ghost
/// `claims` sequence records every range handed out so far.
pub struct AtomicChunksIter {
    len: usize,
    step: usize,
    cursor: usize,
    claims: Ghost<Seq<(int, int)>>,
}

/// The recorded claims chain one after the other: the first starts at 0,
/// each next one starts where the previous ended, every claim is
/// non-empty, advances by exactly `step` except possibly the last,
/// and none reaches past `len`.
pub open spec fn claims_chained(claims: Seq<(int, int)>, step: int, len: int) -> bool {
    forall|k: int|
        0 <= k < claims.len() ==> {
            &&& #[trigger] claims[k].0 == (if k == 0 {
                0
            } else {
                claims[k - 1].1
            })
            &&& claims[k].1 == (if claims[k].0 + step <= len {
                claims[k].0 + step
            } else {
                len
            })
            &&& claims[k].0 < claims[k].1 <= len
        }
}

impl AtomicChunksIter {
    /// The iterator's invariant: the cursor sits exactly at the end of
    /// the last recorded claim (or at 0 when nothing was claimed yet).
    pub closed spec fn wf(&self) -> bool {
        &&& self.step >= 1
        &&& self.cursor <= self.len
        &&& claims_chained(self.claims@, self.step as int, self.len as int)
        &&& (if self.claims@.len() == 0 {
            self.cursor == 0
        } else {
            self.claims@[self.claims@.len() - 1].1 == self.cursor
        })
    }

    pub closed spec fn spec_len(&self) -> int {
        self.len as int
    }

    pub closed spec fn spec_step(&self) -> int {
        self.step as int
    }

    pub closed spec fn spec_cursor(&self) -> int {
        self.cursor as int
    }

    /// The ranges handed out so far, in order.
    pub closed spec fn spec_claims(&self) -> Seq<(int, int)> {
        self.claims@
    }

    /// Every index has been handed out once the cursor reaches the end.
    pub open spec fn exhausted(&self) -> bool {
        self.spec_cursor() == self.spec_len()
    }

    pub fn new(len: usize, step: usize) -> (it: AtomicChunksIter)
        requires
            step >= 1,
        ensures
            it.wf(),
            it.spec_len() == len,
            it.spec_step() == step,
            it.spec_cursor() == 0,
            it.spec_claims() == Seq::<(int, int)>::empty(),
    {
        AtomicChunksIter { len, step, cursor: 0, claims: Ghost(Seq::empty()) }
    }

    /// Claim the next chunk. Returns the chunk's index together with the
    /// half-open range `[start, end)` it owns, or `None` once the whole
    /// interval `[0, len)` has been handed out.
    pub fn next(&mut self) -> (r: Option<(usize, usize, usize)>)
        requires
            old(self).wf(),
        ensures
            final(self).wf(),
            final(self).spec_len() == old(self).spec_len(),
            final(self).spec_step() == old(self).spec_step(),
            match r {
                Some((chunk, start, end)) => {
                    &&& old(self).spec_cursor() < old(self).spec_len()
                    &&& start == old(self).spec_cursor()
                    &&& end == (if start + old(self).spec_step() <= old(self).spec_len() {
                        start + old(self).spec_step()
                    } else {
                        old(self).spec_len()
                    })
                    &&& start < end <= old(self).spec_len()
                    &&& chunk == start as int / old(self).spec_step()
                    &&& final(self).spec_cursor() == end
                    &&& final(self).spec_claims() == old(self).spec_claims().push(
                        (start as int, end as int),
                    )
                },
                None => {
                    &&& old(self).exhausted()
                    &&& *final(self) == *old(self)
                },
            },
    {
        if self.cursor == self.len {
            return None;
        }
        let start = self.cursor;
        let end = if self.len - start >= self.step {
            start + self.step
        } else {
            self.len
        };
        self.cursor = end;
        proof {
            self.claims@ = self.claims@.push((start as int, end as int));
        }
        Some((start / self.step, start, end))
    }
}

/// Some recorded claim contains the index `i`.
pub open spec fn claim_covers(claims: Seq<(int, int)>, i: int) -> bool {
    exists|k: int| 0 <= k < claims.len() && ((#[trigger] claims[k]).0 <= i < claims[k].1)
}

/// Chained claims cover every index below their common end: any `i` in
/// `[0, claims[last].1)` lies inside some claim.
proof fn lemma_chained_covers(claims: Seq<(int, int)>, step: int, len: int, i: int)
    requires
        claims_chained(claims, step, len),
        claims.len() > 0,
        0 <= i < claims[claims.len() - 1].1,
    ensures
        claim_covers(claims, i),
    decreases claims.len(),
{
    let last = claims.len() - 1;
    if claims[last].0 <= i {
        assert((claims[last]).0 <= i < claims[last].1);
    } else {
        let prefix = claims.take(last);
        assert(claims_chained(prefix, step, len)) by {
            assert(forall|k: int| 0 <= k < prefix.len() ==> prefix[k] == claims[k]);
        }
        assert(prefix[prefix.len() - 1].1 == claims[last].0);
        lemma_chained_covers(prefix, step, len, i);
        let k = choose|k: int|
            0 <= k < prefix.len() && ((#[trigger] prefix[k]).0 <= i < prefix[k].1);
        assert((claims[k]).0 <= i < claims[k].1);
    }
}

/// Ends of chained claims never decrease from one claim to a later one.
proof fn lemma_chained_monotone(claims: Seq<(int, int)>, step: int, len: int, k1: int, k2: int)
    requires
        claims_chained(claims, step, len),
        0 <= k1 <= k2 < claims.len(),
    ensures
        claims[k1].1 <= claims[k2].1,
    decreases k2 - k1,
{
    if k1 < k2 {
        lemma_chained_monotone(claims, step, len, k1, k2 - 1);
        assert(claims[k2].0 == claims[k2 - 1].1);
    }
}

/// The partitioner tiles its interval exactly: once the cursor is
/// exhausted, every index of `[0, len)` lies in exactly one claimed
/// range, no two claims overlap, and every claim stays within bounds.
/// With `len == 0` no claim is ever handed out and this holds vacuously.
pub proof fn lemma_claims_partition(it: AtomicChunksIter)
    requires
        it.wf(),
        it.exhausted(),
    ensures
        forall|i: int| 0 <= i < it.spec_len() ==> #[trigger] claim_covers(it.spec_claims(), i),
        forall|k1: int, k2: int|
            0 <= k1 < k2 < it.spec_claims().len() ==> #[trigger] it.spec_claims()[k1].1
                <= #[trigger] it.spec_claims()[k2].0,
        forall|k: int|
            0 <= k < it.spec_claims().len() ==> 0 <= #[trigger] it.spec_claims()[k].0
                < it.spec_claims()[k].1 <= it.spec_len(),
{
    let claims = it.spec_claims();
    let step = it.spec_step();
    let len = it.spec_len();
    assert forall|i: int| 0 <= i < len implies #[trigger] claim_covers(claims, i) by {
        assert(claims.len() > 0);
        lemma_chained_covers(claims, step, len, i);
    }
    assert forall|k1: int, k2: int| 0 <= k1 < k2 < claims.len() implies #[trigger] claims[k1].1
        <= #[trigger] claims[k2].0 by {
        lemma_chained_monotone(claims, step, len, k1, k2 - 1);
        assert(claims[k2].0 == claims[k2 - 1].1);
    }
    assert forall|k: int| 0 <= k < claims.len() implies 0 <= #[trigger] claims[k].0 < claims[k].1
        <= len by {
        assert(claims[0].0 == 0);
        if k > 0 {
            lemma_chained_monotone(claims, step, len, 0, k - 1);
            assert(claims[k].0 == claims[k - 1].1);
            assert(claims[0].1 <= claims[k - 1].1);
        }
    }
}

} // verus!
