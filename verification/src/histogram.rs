//! The latency histogram primitive.

use vstd::prelude::*;
use crate::counter::{sat_add, sat_incr};

verus! {

/// The bucket a duration falls into: the first index whose upper bound is at
/// least `d`, or one past the last bound for durations above every bound
/// (the implicit unbounded bucket).
pub open spec fn bucket_index(bounds: Seq<u64>, d: u64) -> int
    decreases bounds.len(),
{
    if bounds.len() == 0 {
        0
    } else if bounds[0] >= d {
        0
    } else {
        1 + bucket_index(bounds.drop_first(), d)
    }
}

/// A sequence of `n` zeroed bucket counts.
pub open spec fn zero_counts(n: nat) -> Seq<u64> {
    Seq::new(n, |i: int| 0u64)
}

/// `bucket_index` is in range, its bound holds the duration, and no earlier
/// bound does.
pub proof fn lemma_bucket_index_props(bounds: Seq<u64>, d: u64)
    ensures
        0 <= bucket_index(bounds, d) <= bounds.len(),
        bucket_index(bounds, d) < bounds.len() ==> bounds[bucket_index(bounds, d)] >= d,
        forall|j: int| 0 <= j < bucket_index(bounds, d) ==> bounds[j] < d,
    decreases bounds.len(),
{
    if bounds.len() == 0 {
    } else if bounds[0] >= d {
    } else {
        lemma_bucket_index_props(bounds.drop_first(), d);
        assert forall|j: int| 1 <= j < bucket_index(bounds, d) implies bounds[j] < d by {
            assert(bounds.drop_first()[j - 1] == bounds[j]);
        }
        if bucket_index(bounds, d) < bounds.len() {
            assert(bounds.drop_first()[bucket_index(bounds.drop_first(), d)] == bounds[
                bucket_index(bounds, d)]);
        }
    }
}

/// A position whose bound holds the duration, with every earlier bound below
/// it, is what `bucket_index` returns.
pub proof fn lemma_bucket_index_first(bounds: Seq<u64>, d: u64, i: int)
    requires
        0 <= i <= bounds.len(),
        i < bounds.len() ==> bounds[i] >= d,
        forall|j: int| 0 <= j < i ==> bounds[j] < d,
    ensures
        bucket_index(bounds, d) == i,
    decreases bounds.len(),
{
    if bounds.len() == 0 {
    } else if bounds[0] >= d {
        assert(i == 0);
    } else {
        assert(i >= 1);
        assert forall|j: int| 0 <= j < i - 1 implies bounds.drop_first()[j] < d by {
            assert(bounds.drop_first()[j] == bounds[j + 1]);
        }
        if i < bounds.len() {
            assert(bounds.drop_first()[i - 1] == bounds[i]);
        }
        lemma_bucket_index_first(bounds.drop_first(), d, i - 1);
    }
}

/// A bucketed duration histogram.  `counts` has one slot per bound plus the
/// implicit unbounded bucket; `add` increments the matching bucket and a
/// running sum, both saturating.
#[derive(Debug)]
pub struct Histogram {
    pub bounds: Vec<u64>,
    pub counts: Vec<u64>,
    pub sum: u64,
}

impl Histogram {
    /// One count slot per bound, plus the unbounded bucket.
    pub open spec fn wf(self) -> bool {
        self.counts@.len() == self.bounds@.len() + 1
    }

    /// A fresh histogram over the given bucket upper bounds, all counts zero.
    pub fn new(bounds: Vec<u64>) -> (h: Histogram)
        ensures
            h.wf(),
            h.bounds@ == bounds@,
            h.counts@ == zero_counts(bounds@.len() + 1),
            h.sum == 0,
    {
        let n = bounds.len();
        let mut counts: Vec<u64> = Vec::new();
        counts.push(0);
        let mut i: usize = 0;
        while i < n
            invariant
                i <= n,
                counts@.len() == i + 1,
                forall|j: int| 0 <= j < i + 1 ==> counts@[j] == 0u64,
            decreases n - i,
        {
            counts.push(0);
            i = i + 1;
        }
        proof {
            assert(counts@ =~= zero_counts(bounds@.len() + 1));
        }
        Histogram { bounds, counts, sum: 0 }
    }

    /// Record one duration sample: the first bucket whose upper bound is at
    /// least `d` (or the unbounded bucket) is incremented, and `d` is added
    /// to the running sum.
    pub fn add(&mut self, d: u64)
        requires
            old(self).wf(),
        ensures
            final(self).wf(),
            final(self).bounds@ == old(self).bounds@,
            final(self).counts@ == old(self).counts@.update(
                bucket_index(old(self).bounds@, d),
                sat_incr(old(self).counts@[bucket_index(old(self).bounds@, d)]),
            ),
            final(self).sum == sat_add(old(self).sum, d),
    {
        let n = self.bounds.len();
        let mut i: usize = 0;
        while i < n && self.bounds[i] < d
            invariant
                i <= n,
                n == self.bounds@.len(),
                forall|j: int| 0 <= j < i ==> self.bounds@[j] < d,
            decreases n - i,
        {
            i = i + 1;
        }
        proof {
            lemma_bucket_index_first(self.bounds@, d, i as int);
        }
        let c = self.counts[i];
        if c < u64::MAX {
            self.counts.set(i, c + 1);
        } else {
            self.counts.set(i, c);
        }
        if d > u64::MAX - self.sum {
            self.sum = u64::MAX;
        } else {
            self.sum = self.sum + d;
        }
    }
}

} // verus!
