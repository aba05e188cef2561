//! The shared registry of per-target records.
//!
//! The registry maps opaque `u64` target keys to `Metrics` records.  A
//! record is born on first resolution of its target and lives from then on;
//! a stage caches the key it resolved and every later observation names it.
//! `poisoned` models the state of the lock guarding the map itself: a
//! poisoned registry resolves nothing, and a stage then runs with no record
//! at all.  Every observation on a record is dropped rather than surfaced
//! as an error when the record's own lock is poisoned.
//!
//! Each mutating operation is characterised by a relation between the
//! registry before and after the call (`marked`, `latency_added`,
//! `class_added`, `resolved`): exactly one cell moves, everything else is
//! pinned by the relation's frame.

use vstd::prelude::*;
use crate::classify::Class;
use crate::counter::{sat_add, sat_incr, Counter};
use crate::histogram::{bucket_index, lemma_bucket_index_props, zero_counts};
use crate::metrics::{class_eq, status_key_eq, ClassMetrics, Metrics, StatusMetrics};
use crate::table::{
    find_idx, keys_distinct, lemma_find_idx_first, lemma_find_idx_props, lemma_find_idx_push,
    lemma_find_idx_update,
};

verus! {

/// The registry: histogram bucket bounds shared by every record, and one
/// record per resolved target.
#[derive(Debug)]
pub struct Registry {
    pub poisoned: bool,
    pub bounds: Vec<u64>,
    pub records: Vec<(u64, Metrics)>,
}

impl Registry {
    /// Distinct targets, every record well formed over the shared bounds.
    pub open spec fn wf(self) -> bool {
        &&& keys_distinct(self.records@)
        &&& forall|i: int|
            0 <= i < self.records@.len() ==> (#[trigger] self.records@[i]).1.wf(self.bounds@)
    }

    /// Whether a target has a record.
    pub open spec fn has(self, k: u64) -> bool {
        find_idx(self.records@, k) >= 0
    }

    /// The record of a target that has one.
    pub open spec fn metrics_of(self, k: u64) -> Metrics {
        self.records@[find_idx(self.records@, k)].1
    }

    /// Whether the record's lock is poisoned.
    pub open spec fn rec_poisoned(self, k: u64) -> bool {
        self.metrics_of(k).poisoned
    }

    /// The target's request total.
    pub open spec fn total(self, k: u64) -> u64 {
        self.metrics_of(k).total.value
    }

    /// The instant of the last mutation of the target's record.
    pub open spec fn last_update(self, k: u64) -> u64 {
        self.metrics_of(k).last_update
    }

    /// How often the class was observed for the target under the status.
    pub open spec fn class_count(self, k: u64, s: Option<u16>, c: Class) -> u64 {
        self.metrics_of(k).class_count(s, c)
    }

    /// The latency bucket counts for the target under the status; zeroed
    /// while the status has no entry.
    pub open spec fn bucket_counts(self, k: u64, s: Option<u16>) -> Seq<u64> {
        self.metrics_of(k).bucket_counts(s, self.bounds@)
    }

    /// The latency sum for the target under the status.
    pub open spec fn latency_sum(self, k: u64, s: Option<u16>) -> u64 {
        self.metrics_of(k).latency_sum(s)
    }

    /// Whether an observation on the target's record lands: the record
    /// exists and its lock is healthy.
    pub open spec fn live(self, k: u64) -> bool {
        self.has(k) && !self.rec_poisoned(k)
    }
}

/// Frame: the map's own state and every record but `k`'s are unchanged.
pub open spec fn same_but(r0: Registry, r1: Registry, k: u64) -> bool {
    &&& r1.poisoned == r0.poisoned
    &&& r1.bounds@ == r0.bounds@
    &&& forall|j: u64| j != k ==> #[trigger] r1.has(j) == r0.has(j)
    &&& forall|j: u64| j != k && r0.has(j) ==> #[trigger] r1.metrics_of(j) == r0.metrics_of(j)
}

/// One `total` increment landed on `k`'s record at `now`; identity when the
/// target has no record or its lock is poisoned.
pub open spec fn marked(r0: Registry, r1: Registry, k: u64, now: u64) -> bool {
    if r0.live(k) {
        &&& same_but(r0, r1, k)
        &&& r1.has(k)
        &&& !r1.rec_poisoned(k)
        &&& r1.last_update(k) == now
        &&& r1.total(k) == sat_incr(r0.total(k))
        &&& forall|s: Option<u16>, c: Class|
            #[trigger] r1.class_count(k, s, c) == r0.class_count(k, s, c)
        &&& forall|s: Option<u16>| #[trigger] r1.bucket_counts(k, s) == r0.bucket_counts(k, s)
        &&& forall|s: Option<u16>| #[trigger] r1.latency_sum(k, s) == r0.latency_sum(k, s)
    } else {
        r1 == r0
    }
}

/// One latency sample of `elapsed` landed on `k`'s record under status
/// `Some(st)` at `now`; identity when the target has no record or its lock
/// is poisoned.
pub open spec fn latency_added(
    r0: Registry,
    r1: Registry,
    k: u64,
    st: u16,
    elapsed: u64,
    now: u64,
) -> bool {
    if r0.live(k) {
        &&& same_but(r0, r1, k)
        &&& r1.has(k)
        &&& !r1.rec_poisoned(k)
        &&& r1.last_update(k) == now
        &&& r1.total(k) == r0.total(k)
        &&& forall|s: Option<u16>, c: Class|
            #[trigger] r1.class_count(k, s, c) == r0.class_count(k, s, c)
        &&& r1.bucket_counts(k, Some(st)) == r0.bucket_counts(k, Some(st)).update(
            bucket_index(r0.bounds@, elapsed),
            sat_incr(r0.bucket_counts(k, Some(st))[bucket_index(r0.bounds@, elapsed)]),
        )
        &&& r1.latency_sum(k, Some(st)) == sat_add(r0.latency_sum(k, Some(st)), elapsed)
        &&& forall|s: Option<u16>|
            s != Some(st) ==> #[trigger] r1.bucket_counts(k, s) == r0.bucket_counts(k, s)
        &&& forall|s: Option<u16>|
            s != Some(st) ==> #[trigger] r1.latency_sum(k, s) == r0.latency_sum(k, s)
    } else {
        r1 == r0
    }
}

/// One class observation of `c` landed on `k`'s record under status key
/// `skey` at `now`; identity when the target has no record or its lock is
/// poisoned.
pub open spec fn class_added(
    r0: Registry,
    r1: Registry,
    k: u64,
    skey: Option<u16>,
    c: Class,
    now: u64,
) -> bool {
    if r0.live(k) {
        &&& same_but(r0, r1, k)
        &&& r1.has(k)
        &&& !r1.rec_poisoned(k)
        &&& r1.last_update(k) == now
        &&& r1.total(k) == r0.total(k)
        &&& r1.class_count(k, skey, c) == sat_incr(r0.class_count(k, skey, c))
        &&& forall|s: Option<u16>, c2: Class|
            s != skey || c2 != c ==> #[trigger] r1.class_count(k, s, c2) == r0.class_count(
                k,
                s,
                c2,
            )
        &&& forall|s: Option<u16>| #[trigger] r1.bucket_counts(k, s) == r0.bucket_counts(k, s)
        &&& forall|s: Option<u16>| #[trigger] r1.latency_sum(k, s) == r0.latency_sum(k, s)
    } else {
        r1 == r0
    }
}

/// The record's lock became poisoned: only that flag moved.  Identity when
/// the target has no record.
pub open spec fn record_poisoned(r0: Registry, r1: Registry, k: u64) -> bool {
    if r0.has(k) {
        &&& same_but(r0, r1, k)
        &&& r1.has(k)
        &&& r1.rec_poisoned(k)
        &&& r1.metrics_of(k).last_update == r0.metrics_of(k).last_update
        &&& r1.metrics_of(k).total == r0.metrics_of(k).total
        &&& r1.metrics_of(k).by_status == r0.metrics_of(k).by_status
    } else {
        r1 == r0
    }
}

/// Resolution of a target: on a healthy registry the handle comes back and
/// the record exists afterwards, fresh and zeroed when the target was new;
/// on a poisoned registry nothing changes and there is no handle.
pub open spec fn resolved(r0: Registry, r1: Registry, k: u64, h: Option<u64>) -> bool {
    if r0.poisoned {
        &&& r1 == r0
        &&& h is None
    } else {
        &&& h == Some(k)
        &&& r1.has(k)
        &&& same_but(r0, r1, k)
        &&& if r0.has(k) {
            r1 == r0
        } else {
            &&& !r1.rec_poisoned(k)
            &&& r1.last_update(k) == 0
            &&& r1.total(k) == 0
            &&& forall|s: Option<u16>, c: Class| #[trigger] r1.class_count(k, s, c) == 0
            &&& forall|s: Option<u16>|
                #[trigger] r1.bucket_counts(k, s) == zero_counts(r0.bounds@.len() + 1)
            &&& forall|s: Option<u16>| #[trigger] r1.latency_sum(k, s) == 0
        }
    }
}

/// First matching record index, by linear search.
fn find_record(records: &Vec<(u64, Metrics)>, k: u64) -> (r: Option<usize>)
    ensures
        match r {
            Some(i) => i < records@.len() && find_idx(records@, k) == i as int,
            None => find_idx(records@, k) == -1,
        },
{
    let n = records.len();
    let mut i: usize = 0;
    while i < n
        invariant
            i <= n,
            n == records@.len(),
            forall|j: int| 0 <= j < i ==> records@[j].0 != k,
        decreases n - i,
    {
        if records[i].0 == k {
            proof {
                lemma_find_idx_first(records@, k, i as int);
            }
            return Some(i);
        }
        i = i + 1;
    }
    proof {
        lemma_find_idx_props(records@, k);
        let fi = find_idx(records@, k);
        if fi != -1 {
            assert(records@[fi].0 == k);
        }
    }
    None
}

/// First matching status index, by linear search.
fn find_status(entries: &Vec<(Option<u16>, StatusMetrics)>, s: Option<u16>) -> (r: Option<usize>)
    ensures
        match r {
            Some(i) => i < entries@.len() && find_idx(entries@, s) == i as int,
            None => find_idx(entries@, s) == -1,
        },
{
    let n = entries.len();
    let mut i: usize = 0;
    while i < n
        invariant
            i <= n,
            n == entries@.len(),
            forall|j: int| 0 <= j < i ==> entries@[j].0 != s,
        decreases n - i,
    {
        if status_key_eq(entries[i].0, s) {
            proof {
                lemma_find_idx_first(entries@, s, i as int);
            }
            return Some(i);
        }
        i = i + 1;
    }
    proof {
        lemma_find_idx_props(entries@, s);
        let fi = find_idx(entries@, s);
        if fi != -1 {
            assert(entries@[fi].0 == s);
        }
    }
    None
}

/// First matching class index, by linear search.
fn find_class(entries: &Vec<(Class, ClassMetrics)>, c: Class) -> (r: Option<usize>)
    ensures
        match r {
            Some(i) => i < entries@.len() && find_idx(entries@, c) == i as int,
            None => find_idx(entries@, c) == -1,
        },
{
    let n = entries.len();
    let mut i: usize = 0;
    while i < n
        invariant
            i <= n,
            n == entries@.len(),
            forall|j: int| 0 <= j < i ==> entries@[j].0 != c,
        decreases n - i,
    {
        if class_eq(entries[i].0, c) {
            proof {
                lemma_find_idx_first(entries@, c, i as int);
            }
            return Some(i);
        }
        i = i + 1;
    }
    proof {
        lemma_find_idx_props(entries@, c);
        let fi = find_idx(entries@, c);
        if fi != -1 {
            assert(entries@[fi].0 == c);
        }
    }
    None
}

/// A plain copy of the shared bucket bounds.
fn copy_bounds(v: &Vec<u64>) -> (r: Vec<u64>)
    ensures
        r@ == v@,
{
    let n = v.len();
    let mut r: Vec<u64> = Vec::new();
    let mut i: usize = 0;
    while i < n
        invariant
            i <= n,
            n == v@.len(),
            r@ == v@.subrange(0, i as int),
        decreases n - i,
    {
        r.push(v[i]);
        proof {
            assert(r@ =~= v@.subrange(0, i + 1));
        }
        i = i + 1;
    }
    proof {
        assert(r@ =~= v@);
    }
    r
}

impl Registry {
    /// A fresh, healthy, empty registry over the given histogram bounds.
    pub fn new(bounds: Vec<u64>) -> (r: Registry)
        ensures
            r.wf(),
            !r.poisoned,
            r.bounds@ == bounds@,
            r.records@.len() == 0,
            forall|k: u64| !(#[trigger] r.has(k)),
    {
        Registry { poisoned: false, bounds, records: Vec::new() }
    }

    /// Insert-or-get for a target: the one registry operation a stage uses.
    /// Returns the handle every later observation names, or nothing when
    /// the map's lock is poisoned.
    pub fn resolve(&mut self, target: u64) -> (h: Option<u64>)
        requires
            old(self).wf(),
        ensures
            final(self).wf(),
            resolved(*old(self), *final(self), target, h),
    {
        if self.poisoned {
            return None;
        }
        let found = find_record(&self.records, target);
        match found {
            Some(_) => {
                proof {
                    assert(self.has(target));
                }
                return Some(target);
            },
            None => {
                let ghost r0 = *self;
                self.records.push((target, Metrics::new()));
                proof {
                    lemma_find_idx_push(r0.records@, self.records@.last(), target);
                    assert forall|j: u64| j != target implies #[trigger] self.has(j) == r0.has(
                        j,
                    ) by {
                        lemma_find_idx_push(r0.records@, self.records@.last(), j);
                    }
                    assert forall|j: u64| j != target && r0.has(j) implies #[trigger] self.metrics_of(
                        j,
                    ) == r0.metrics_of(j) by {
                        lemma_find_idx_push(r0.records@, self.records@.last(), j);
                        lemma_find_idx_props(r0.records@, j);
                    }
                    assert(self.metrics_of(target) == self.records@.last().1);
                    assert forall|s: Option<u16>, c: Class| #[trigger]
                        self.class_count(target, s, c) == 0 by {}
                    assert forall|s: Option<u16>| #[trigger]
                        self.bucket_counts(target, s) == zero_counts(r0.bounds@.len() + 1) by {}
                    assert forall|i: int| 0 <= i < self.records@.len() implies (
                        #[trigger] self.records@[i]).1.wf(self.bounds@) by {
                        if i < r0.records@.len() {
                            assert(r0.records@[i].1.wf(r0.bounds@));
                        }
                    }
                    assert forall|i: int, j: int|
                        0 <= i < j < self.records@.len() implies self.records@[i].0
                        != self.records@[j].0 by {
                        lemma_find_idx_props(r0.records@, target);
                        if j == self.records@.len() - 1 {
                            assert(r0.records@[i].0 != target);
                        }
                    }
                }
                Some(target)
            },
        }
    }

    /// One request counted against the target's record: bumps `total` and
    /// stamps `last_update`.  Dropped when the target has no record or its
    /// lock is poisoned.
    pub fn mark(&mut self, k: u64, now: u64)
        requires
            old(self).wf(),
        ensures
            final(self).wf(),
            marked(*old(self), *final(self), k, now),
    {
        let found = find_record(&self.records, k);
        match found {
            None => {},
            Some(i) => {
                if self.records[i].1.poisoned {
                    return;
                }
                let ghost r0 = *self;
                let rec = &mut self.records[i];
                rec.1.last_update = now;
                rec.1.total.incr();
                proof {
                    lemma_find_idx_props(r0.records@, k);
                    let m1 = self.records@[i as int].1;
                    assert(self.records@ =~= r0.records@.update(i as int, (k, m1)));
                    lemma_mutated_record(r0, *self, k, i as int);
                    assert(self.metrics_of(k) == m1);
                    assert forall|s: Option<u16>, c: Class| #[trigger]
                        self.class_count(k, s, c) == r0.class_count(k, s, c) by {}
                }
            },
        }
    }

    /// One latency sample recorded against the target's record under status
    /// `Some(st)`: stamps `last_update`, makes the per-status record on its
    /// first observation, and feeds `elapsed` to its histogram.  Returns
    /// whether the observation landed; it is dropped when the target has no
    /// record or its lock is poisoned.
    pub fn add_latency(&mut self, k: u64, st: u16, elapsed: u64, now: u64) -> (ok: bool)
        requires
            old(self).wf(),
        ensures
            final(self).wf(),
            latency_added(*old(self), *final(self), k, st, elapsed, now),
            ok == old(self).live(k),
    {
        let found = find_record(&self.records, k);
        let i = match found {
            None => {
                return false;
            },
            Some(i) => i,
        };
        if self.records[i].1.poisoned {
            return false;
        }
        let ghost r0 = *self;
        proof {
            lemma_find_idx_props(r0.records@, k);
            assert(r0.records@[i as int].1.wf(r0.bounds@));
            lemma_bucket_index_props(r0.bounds@, elapsed);
        }
        let skey = Some(st);
        let jf = find_status(&self.records[i].1.by_status, skey);
        match jf {
            Some(j) => {
                proof {
                    assert((r0.records@[i as int].1.by_status@[j as int]).1.wf(r0.bounds@));
                }
                self.records[i].1.last_update = now;
                self.records[i].1.by_status[j].1.latency.add(elapsed);
                proof {
                    let m0 = r0.records@[i as int].1;
                    let m1 = self.records@[i as int].1;
                    lemma_find_idx_props(m0.by_status@, skey);
                    assert(m1.by_status@ =~= m0.by_status@.update(
                        j as int,
                        (skey, m1.by_status@[j as int].1),
                    ));
                    lemma_status_frame(m0, m1, skey, j as int);
                    assert forall|t: int|
                        0 <= t < m1.by_status@.len() implies (#[trigger] m1.by_status@[t]).1.wf(
                        r0.bounds@,
                    ) by {
                        assert((m0.by_status@[t]).1.wf(r0.bounds@));
                    }
                    assert(self.records@ =~= r0.records@.update(i as int, (k, m1)));
                    lemma_mutated_record(r0, *self, k, i as int);
                    assert forall|s: Option<u16>, c: Class| #[trigger]
                        self.class_count(k, s, c) == r0.class_count(k, s, c) by {
                        if s == skey {
                            assert(m1.status(skey).by_class@ == m0.status(skey).by_class@);
                        }
                    }
                    assert forall|s: Option<u16>|
                        s != skey implies #[trigger] self.bucket_counts(k, s) == r0.bucket_counts(
                        k,
                        s,
                    ) by {}
                    assert forall|s: Option<u16>|
                        s != skey implies #[trigger] self.latency_sum(k, s) == r0.latency_sum(
                        k,
                        s,
                    ) by {}
                    assert(self.bucket_counts(k, skey) == r0.bucket_counts(k, skey).update(
                        bucket_index(r0.bounds@, elapsed),
                        sat_incr(
                            r0.bucket_counts(k, skey)[bucket_index(r0.bounds@, elapsed)],
                        ),
                    ));
                }
            },
            None => {
                let b = copy_bounds(&self.bounds);
                let mut sm = StatusMetrics::new(b);
                sm.latency.add(elapsed);
                self.records[i].1.last_update = now;
                self.records[i].1.by_status.push((skey, sm));
                proof {
                    let m0 = r0.records@[i as int].1;
                    let m1 = self.records@[i as int].1;
                    assert(m1.by_status@ =~= m0.by_status@.push(
                        (skey, m1.by_status@.last().1),
                    ));
                    lemma_status_push(m0, m1, skey);
                    assert forall|t: int|
                        0 <= t < m1.by_status@.len() implies (#[trigger] m1.by_status@[t]).1.wf(
                        r0.bounds@,
                    ) by {
                        if t < m0.by_status@.len() {
                            assert((m0.by_status@[t]).1.wf(r0.bounds@));
                        }
                    }
                    assert(self.records@ =~= r0.records@.update(i as int, (k, m1)));
                    lemma_mutated_record(r0, *self, k, i as int);
                    assert forall|s: Option<u16>, c: Class| #[trigger]
                        self.class_count(k, s, c) == r0.class_count(k, s, c) by {
                        if s == skey {
                            assert(find_idx(m1.status(skey).by_class@, c) == -1);
                        }
                    }
                    assert forall|s: Option<u16>|
                        s != skey implies #[trigger] self.bucket_counts(k, s) == r0.bucket_counts(
                        k,
                        s,
                    ) by {}
                    assert forall|s: Option<u16>|
                        s != skey implies #[trigger] self.latency_sum(k, s) == r0.latency_sum(
                        k,
                        s,
                    ) by {}
                    assert(r0.bucket_counts(k, skey) == zero_counts(r0.bounds@.len() + 1));
                    assert(self.bucket_counts(k, skey) =~= r0.bucket_counts(k, skey).update(
                        bucket_index(r0.bounds@, elapsed),
                        sat_incr(
                            r0.bucket_counts(k, skey)[bucket_index(r0.bounds@, elapsed)],
                        ),
                    ));
                }
            },
        }
        true
    }

    /// One class observation recorded against the target's record: stamps
    /// `last_update`, makes the per-status and per-class entries on first
    /// observation, and bumps the class's counter.  Dropped when the target
    /// has no record or its lock is poisoned.
    pub fn measure_class(&mut self, k: u64, class: Class, skey: Option<u16>, now: u64)
        requires
            old(self).wf(),
        ensures
            final(self).wf(),
            class_added(*old(self), *final(self), k, skey, class, now),
    {
        let found = find_record(&self.records, k);
        let i = match found {
            None => {
                return;
            },
            Some(i) => i,
        };
        if self.records[i].1.poisoned {
            return;
        }
        let ghost r0 = *self;
        proof {
            lemma_find_idx_props(r0.records@, k);
            assert(r0.records@[i as int].1.wf(r0.bounds@));
        }
        let jf = find_status(&self.records[i].1.by_status, skey);
        match jf {
            Some(j) => {
                proof {
                    assert((r0.records@[i as int].1.by_status@[j as int]).1.wf(r0.bounds@));
                }
                let lf = find_class(&self.records[i].1.by_status[j].1.by_class, class);
                match lf {
                    Some(l) => {
                        self.records[i].1.last_update = now;
                        self.records[i].1.by_status[j].1.by_class[l].1.total.incr();
                        proof {
                            let m0 = r0.records@[i as int].1;
                            let m1 = self.records@[i as int].1;
                            let s0 = m0.by_status@[j as int].1;
                            let s1 = m1.by_status@[j as int].1;
                            lemma_find_idx_props(m0.by_status@, skey);
                            lemma_find_idx_props(s0.by_class@, class);
                            assert(s1.by_class@ =~= s0.by_class@.update(
                                l as int,
                                (class, s1.by_class@[l as int].1),
                            ));
                            lemma_class_frame(s0, s1, class, l as int);
                            assert(m1.by_status@ =~= m0.by_status@.update(j as int, (skey, s1)));
                            lemma_status_frame(m0, m1, skey, j as int);
                            assert forall|t: int|
                                0 <= t < m1.by_status@.len() implies (
                            #[trigger] m1.by_status@[t]).1.wf(r0.bounds@) by {
                                assert((m0.by_status@[t]).1.wf(r0.bounds@));
                            }
                            assert(self.records@ =~= r0.records@.update(i as int, (k, m1)));
                            lemma_mutated_record(r0, *self, k, i as int);
                            assert(self.class_count(k, skey, class) == sat_incr(
                                r0.class_count(k, skey, class),
                            ));
                            assert forall|s: Option<u16>, c2: Class|
                                s != skey || c2 != class implies #[trigger] self.class_count(
                                k,
                                s,
                                c2,
                            ) == r0.class_count(k, s, c2) by {}
                            assert forall|s: Option<u16>| #[trigger]
                                self.bucket_counts(k, s) == r0.bucket_counts(k, s) by {
                                if s == skey {
                                    assert(s1.latency == s0.latency);
                                }
                            }
                            assert forall|s: Option<u16>| #[trigger]
                                self.latency_sum(k, s) == r0.latency_sum(k, s) by {
                                if s == skey {
                                    assert(s1.latency == s0.latency);
                                }
                            }
                        }
                    },
                    None => {
                        let mut cm = ClassMetrics { total: Counter::new() };
                        cm.total.incr();
                        self.records[i].1.last_update = now;
                        self.records[i].1.by_status[j].1.by_class.push((class, cm));
                        proof {
                            let m0 = r0.records@[i as int].1;
                            let m1 = self.records@[i as int].1;
                            let s0 = m0.by_status@[j as int].1;
                            let s1 = m1.by_status@[j as int].1;
                            lemma_find_idx_props(m0.by_status@, skey);
                            assert(s1.by_class@ =~= s0.by_class@.push(
                                (class, s1.by_class@.last().1),
                            ));
                            lemma_class_push(s0, s1, class);
                            assert(m1.by_status@ =~= m0.by_status@.update(j as int, (skey, s1)));
                            lemma_status_frame(m0, m1, skey, j as int);
                            assert forall|t: int|
                                0 <= t < m1.by_status@.len() implies (
                            #[trigger] m1.by_status@[t]).1.wf(r0.bounds@) by {
                                assert((m0.by_status@[t]).1.wf(r0.bounds@));
                            }
                            assert(self.records@ =~= r0.records@.update(i as int, (k, m1)));
                            lemma_mutated_record(r0, *self, k, i as int);
                            assert(self.class_count(k, skey, class) == sat_incr(
                                r0.class_count(k, skey, class),
                            ));
                            assert forall|s: Option<u16>, c2: Class|
                                s != skey || c2 != class implies #[trigger] self.class_count(
                                k,
                                s,
                                c2,
                            ) == r0.class_count(k, s, c2) by {}
                            assert forall|s: Option<u16>| #[trigger]
                                self.bucket_counts(k, s) == r0.bucket_counts(k, s) by {
                                if s == skey {
                                    assert(s1.latency == s0.latency);
                                }
                            }
                            assert forall|s: Option<u16>| #[trigger]
                                self.latency_sum(k, s) == r0.latency_sum(k, s) by {
                                if s == skey {
                                    assert(s1.latency == s0.latency);
                                }
                            }
                        }
                    },
                }
            },
            None => {
                let b = copy_bounds(&self.bounds);
                let mut sm = StatusMetrics::new(b);
                let mut cm = ClassMetrics { total: Counter::new() };
                cm.total.incr();
                sm.by_class.push((class, cm));
                self.records[i].1.last_update = now;
                self.records[i].1.by_status.push((skey, sm));
                proof {
                    let m0 = r0.records@[i as int].1;
                    let m1 = self.records@[i as int].1;
                    let s1 = m1.by_status@.last().1;
                    assert(m1.by_status@ =~= m0.by_status@.push((skey, s1)));
                    lemma_status_push(m0, m1, skey);
                    assert(s1.wf(r0.bounds@));
                    assert forall|t: int|
                        0 <= t < m1.by_status@.len() implies (#[trigger] m1.by_status@[t]).1.wf(
                        r0.bounds@,
                    ) by {
                        if t < m0.by_status@.len() {
                            assert((m0.by_status@[t]).1.wf(r0.bounds@));
                        }
                    }
                    assert(self.records@ =~= r0.records@.update(i as int, (k, m1)));
                    lemma_mutated_record(r0, *self, k, i as int);
                    assert(s1.class_count(class) == 1);
                    assert(self.class_count(k, skey, class) == sat_incr(
                        r0.class_count(k, skey, class),
                    ));
                    assert forall|s: Option<u16>, c2: Class|
                        s != skey || c2 != class implies #[trigger] self.class_count(k, s, c2)
                        == r0.class_count(k, s, c2) by {
                        if s == skey {
                            lemma_find_idx_props(s1.by_class@, c2);
                            if find_idx(s1.by_class@, c2) != -1 {
                                assert(s1.by_class@[find_idx(s1.by_class@, c2)].0 == c2);
                            }
                        }
                    }
                    assert forall|s: Option<u16>| #[trigger]
                        self.bucket_counts(k, s) == r0.bucket_counts(k, s) by {}
                    assert forall|s: Option<u16>| #[trigger]
                        self.latency_sum(k, s) == r0.latency_sum(k, s) by {}
                }
            },
        }
    }

    /// Marks the map's own lock poisoned: every later resolution yields no
    /// handle.  Models a panic while the map lock was held.
    pub fn poison(&mut self)
        ensures
            final(self).poisoned,
            final(self).bounds == old(self).bounds,
            final(self).records == old(self).records,
            old(self).wf() ==> final(self).wf(),
    {
        self.poisoned = true;
    }

    /// Marks the record's lock poisoned: every later observation against
    /// the target is dropped.  Models a panic while the record's lock was
    /// held.
    pub fn poison_record(&mut self, k: u64)
        requires
            old(self).wf(),
        ensures
            final(self).wf(),
            record_poisoned(*old(self), *final(self), k),
    {
        let found = find_record(&self.records, k);
        match found {
            None => {},
            Some(i) => {
                let ghost r0 = *self;
                self.records[i].1.poisoned = true;
                proof {
                    lemma_find_idx_props(r0.records@, k);
                    let m1 = self.records@[i as int].1;
                    assert(self.records@ =~= r0.records@.update(i as int, (k, m1)));
                    assert(m1.wf(r0.bounds@)) by {
                        assert(r0.records@[i as int].1.wf(r0.bounds@));
                    }
                    lemma_mutated_record(r0, *self, k, i as int);
                }
            },
        }
    }

    /// Whether the target has a record.
    pub fn contains(&self, k: u64) -> (r: bool)
        ensures
            r == self.has(k),
    {
        match find_record(&self.records, k) {
            Some(_) => true,
            None => false,
        }
    }

    /// The target's request total, when it has a record.
    pub fn get_total(&self, k: u64) -> (r: Option<u64>)
        ensures
            match r {
                Some(v) => self.has(k) && v == self.total(k),
                None => !self.has(k),
            },
    {
        match find_record(&self.records, k) {
            Some(i) => Some(self.records[i].1.total.get()),
            None => None,
        }
    }

    /// The instant of the target's last mutation, when it has a record.
    pub fn get_last_update(&self, k: u64) -> (r: Option<u64>)
        ensures
            match r {
                Some(v) => self.has(k) && v == self.last_update(k),
                None => !self.has(k),
            },
    {
        match find_record(&self.records, k) {
            Some(i) => Some(self.records[i].1.last_update),
            None => None,
        }
    }

    /// How often the class was observed for the target under the status;
    /// zero without a record or an entry.
    pub fn get_class_count(&self, k: u64, s: Option<u16>, c: Class) -> (r: u64)
        ensures
            r == if self.has(k) {
                self.class_count(k, s, c)
            } else {
                0u64
            },
    {
        let i = match find_record(&self.records, k) {
            Some(i) => i,
            None => {
                return 0;
            },
        };
        let j = match find_status(&self.records[i].1.by_status, s) {
            Some(j) => j,
            None => {
                return 0;
            },
        };
        match find_class(&self.records[i].1.by_status[j].1.by_class, c) {
            Some(l) => self.records[i].1.by_status[j].1.by_class[l].1.total.get(),
            None => 0,
        }
    }

    /// The latency bucket counts for the target under the status, zeroed
    /// while the status has no entry; nothing without a record.
    pub fn get_bucket_counts(&self, k: u64, s: Option<u16>) -> (r: Option<Vec<u64>>)
        ensures
            match r {
                Some(v) => self.has(k) && v@ == self.bucket_counts(k, s),
                None => !self.has(k),
            },
    {
        let i = match find_record(&self.records, k) {
            Some(i) => i,
            None => {
                return None;
            },
        };
        match find_status(&self.records[i].1.by_status, s) {
            Some(j) => Some(copy_bounds(&self.records[i].1.by_status[j].1.latency.counts)),
            None => {
                let n = self.bounds.len();
                let mut zs: Vec<u64> = Vec::new();
                zs.push(0);
                let mut t: usize = 0;
                while t < n
                    invariant
                        t <= n,
                        zs@.len() == t + 1,
                        forall|w: int| 0 <= w < t + 1 ==> zs@[w] == 0u64,
                    decreases n - t,
                {
                    zs.push(0);
                    t = t + 1;
                }
                proof {
                    assert(zs@ =~= zero_counts(self.bounds@.len() + 1));
                }
                Some(zs)
            },
        }
    }

    /// The latency sum for the target under the status; zero without a
    /// record or an entry.
    pub fn get_latency_sum(&self, k: u64, s: Option<u16>) -> (r: u64)
        ensures
            r == if self.has(k) {
                self.latency_sum(k, s)
            } else {
                0u64
            },
    {
        let i = match find_record(&self.records, k) {
            Some(i) => i,
            None => {
                return 0;
            },
        };
        match find_status(&self.records[i].1.by_status, s) {
            Some(j) => self.records[i].1.by_status[j].1.latency.sum,
            None => 0,
        }
    }

    /// The targets that have records, in insertion order.
    pub fn targets(&self) -> (r: Vec<u64>)
        ensures
            r@.len() == self.records@.len(),
            forall|i: int| 0 <= i < r@.len() ==> r@[i] == self.records@[i].0,
    {
        let n = self.records.len();
        let mut r: Vec<u64> = Vec::new();
        let mut i: usize = 0;
        while i < n
            invariant
                i <= n,
                n == self.records@.len(),
                r@.len() == i,
                forall|w: int| 0 <= w < i ==> r@[w] == self.records@[w].0,
            decreases n - i,
        {
            r.push(self.records[i].0);
            i = i + 1;
        }
        r
    }
}

/// After updating class entry `l` (the first occurrence of `c`) in place
/// without touching its key, every other class count is unchanged.
proof fn lemma_class_frame(s0: StatusMetrics, s1: StatusMetrics, c: Class, l: int)
    requires
        keys_distinct(s0.by_class@),
        0 <= l < s0.by_class@.len(),
        find_idx(s0.by_class@, c) == l,
        s1.by_class@ == s0.by_class@.update(l, (c, s1.by_class@[l].1)),
    ensures
        keys_distinct(s1.by_class@),
        s1.class_count(c) == s1.by_class@[l].1.total.value,
        forall|c2: Class| c2 != c ==> #[trigger] s1.class_count(c2) == s0.class_count(c2),
{
    lemma_find_idx_props(s0.by_class@, c);
    assert forall|c2: Class| true implies #[trigger] find_idx(s1.by_class@, c2) == find_idx(
        s0.by_class@,
        c2,
    ) by {
        lemma_find_idx_update(s0.by_class@, l, (c, s1.by_class@[l].1), c2);
    }
    assert forall|c2: Class|
        c2 != c implies #[trigger] s1.class_count(c2) == s0.class_count(c2) by {
        lemma_find_idx_props(s0.by_class@, c2);
    }
}

/// After pushing a fresh class entry, every other class count is unchanged
/// and the new class counts what the entry holds.
proof fn lemma_class_push(s0: StatusMetrics, s1: StatusMetrics, c: Class)
    requires
        keys_distinct(s0.by_class@),
        find_idx(s0.by_class@, c) == -1,
        s1.by_class@ == s0.by_class@.push((c, s1.by_class@.last().1)),
    ensures
        keys_distinct(s1.by_class@),
        s1.class_count(c) == s1.by_class@.last().1.total.value,
        forall|c2: Class| c2 != c ==> #[trigger] s1.class_count(c2) == s0.class_count(c2),
{
    let p = s1.by_class@.last();
    lemma_find_idx_push(s0.by_class@, p, c);
    lemma_find_idx_props(s0.by_class@, c);
    assert forall|c2: Class|
        c2 != c implies #[trigger] s1.class_count(c2) == s0.class_count(c2) by {
        lemma_find_idx_push(s0.by_class@, p, c2);
        lemma_find_idx_props(s0.by_class@, c2);
    }
    assert forall|i2: int, j2: int|
        0 <= i2 < j2 < s1.by_class@.len() implies s1.by_class@[i2].0 != s1.by_class@[j2].0 by {
        if j2 == s1.by_class@.len() - 1 {
            assert(s0.by_class@[i2].0 != c);
        }
    }
}

/// After updating status entry `j` (the first occurrence of `skey`) in
/// place without touching its key, every status lookup is unchanged and the
/// other entries are untouched.
proof fn lemma_status_frame(m0: Metrics, m1: Metrics, skey: Option<u16>, j: int)
    requires
        keys_distinct(m0.by_status@),
        0 <= j < m0.by_status@.len(),
        find_idx(m0.by_status@, skey) == j,
        m1.by_status@ == m0.by_status@.update(j, (skey, m1.by_status@[j].1)),
    ensures
        keys_distinct(m1.by_status@),
        forall|s: Option<u16>|
            #[trigger] find_idx(m1.by_status@, s) == find_idx(m0.by_status@, s),
        m1.has_status(skey),
        m1.status(skey) == m1.by_status@[j].1,
        forall|s: Option<u16>|
            s != skey && m0.has_status(s) ==> #[trigger] m1.status(s) == m0.status(s),
{
    lemma_find_idx_props(m0.by_status@, skey);
    assert forall|s: Option<u16>| true implies #[trigger] find_idx(m1.by_status@, s) == find_idx(
        m0.by_status@,
        s,
    ) by {
        lemma_find_idx_update(m0.by_status@, j, (skey, m1.by_status@[j].1), s);
    }
    assert forall|s: Option<u16>|
        s != skey && m0.has_status(s) implies #[trigger] m1.status(s) == m0.status(s) by {
        lemma_find_idx_props(m0.by_status@, s);
        assert(find_idx(m0.by_status@, s) != j);
    }
}

/// After pushing a fresh status entry, every other status lookup is
/// unchanged and the new key is found.
proof fn lemma_status_push(m0: Metrics, m1: Metrics, skey: Option<u16>)
    requires
        keys_distinct(m0.by_status@),
        find_idx(m0.by_status@, skey) == -1,
        m1.by_status@ == m0.by_status@.push((skey, m1.by_status@.last().1)),
    ensures
        keys_distinct(m1.by_status@),
        m1.has_status(skey),
        m1.status(skey) == m1.by_status@.last().1,
        forall|s: Option<u16>|
            s != skey ==> #[trigger] find_idx(m1.by_status@, s) == find_idx(m0.by_status@, s),
        forall|s: Option<u16>|
            s != skey && m0.has_status(s) ==> #[trigger] m1.status(s) == m0.status(s),
{
    let p = m1.by_status@.last();
    assert(m1.by_status@ == m0.by_status@.push(p));
    lemma_find_idx_push(m0.by_status@, p, skey);
    lemma_find_idx_props(m0.by_status@, skey);
    assert forall|s: Option<u16>|
        s != skey implies #[trigger] find_idx(m1.by_status@, s) == find_idx(m0.by_status@, s) by {
        lemma_find_idx_push(m0.by_status@, p, s);
    }
    assert forall|s: Option<u16>|
        s != skey && m0.has_status(s) implies #[trigger] m1.status(s) == m0.status(s) by {
        lemma_find_idx_props(m0.by_status@, s);
    }
    assert forall|i2: int, j2: int|
        0 <= i2 < j2 < m1.by_status@.len() implies m1.by_status@[i2].0 != m1.by_status@[j2].0 by {
        if j2 == m1.by_status@.len() - 1 {
            assert(m0.by_status@[i2].0 != skey);
        }
    }
}

/// After updating record `i` (which holds key `k`, first occurrence) in
/// place without touching its key, every lookup is unchanged, the other
/// records are untouched, and well-formedness follows from the new record's.
proof fn lemma_mutated_record(r0: Registry, r1: Registry, k: u64, i: int)
    requires
        r0.wf(),
        0 <= i < r0.records@.len(),
        find_idx(r0.records@, k) == i,
        r1.poisoned == r0.poisoned,
        r1.bounds@ == r0.bounds@,
        r1.records@ == r0.records@.update(i, (k, r1.records@[i].1)),
        r1.records@[i].1.wf(r1.bounds@),
    ensures
        keys_distinct(r1.records@),
        forall|i2: int|
            0 <= i2 < r1.records@.len() ==> (#[trigger] r1.records@[i2]).1.wf(r1.bounds@),
        same_but(r0, r1, k),
        r1.has(k),
        r1.metrics_of(k) == r1.records@[i].1,
{
    lemma_find_idx_props(r0.records@, k);
    assert forall|j: u64| true implies #[trigger] find_idx(r1.records@, j) == find_idx(
        r0.records@,
        j,
    ) by {
        lemma_find_idx_update(r0.records@, i, (k, r1.records@[i].1), j);
    }
    assert forall|j: u64| j != k && r0.has(j) implies #[trigger] r1.metrics_of(j)
        == r0.metrics_of(j) by {
        assert(find_idx(r1.records@, j) == find_idx(r0.records@, j));
        lemma_find_idx_props(r0.records@, j);
        assert(find_idx(r0.records@, j) != i);
    }
    assert forall|i2: int|
        0 <= i2 < r1.records@.len() implies (#[trigger] r1.records@[i2]).1.wf(r1.bounds@) by {
        if i2 != i {
            assert(r0.records@[i2].1.wf(r0.bounds@));
        }
    }
}

} // verus!
