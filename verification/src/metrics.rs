//! Per-target metrics records.
//!
//! A `Metrics` record aggregates everything observed for one target: the
//! request total, the instant of the last mutation, and one `StatusMetrics`
//! per observed response status (keyed `None` for requests that failed
//! before any response head).  Each `StatusMetrics` holds the latency
//! histogram for that status and one outcome counter per observed class.
//! The nested maps are association vectors with pairwise-distinct keys;
//! entries are created on first observation with zeroed defaults.

use vstd::prelude::*;
use crate::classify::Class;
use crate::counter::Counter;
use crate::histogram::{zero_counts, Histogram};
use crate::table::{find_idx, keys_distinct};

verus! {

/// The per-class aggregation: how many requests ended in this class.
#[derive(Clone, Copy, Debug)]
pub struct ClassMetrics {
    pub total: Counter,
}

/// The per-status aggregation: response latency and per-class outcomes.
#[derive(Debug)]
pub struct StatusMetrics {
    pub latency: Histogram,
    pub by_class: Vec<(Class, ClassMetrics)>,
}

/// The per-target record.  `poisoned` models the state of the lock guarding
/// the record: once the lock is poisoned every further observation on the
/// record is dropped, and the data path goes on untouched.
#[derive(Debug)]
pub struct Metrics {
    pub poisoned: bool,
    pub last_update: u64,
    pub total: Counter,
    pub by_status: Vec<(Option<u16>, StatusMetrics)>,
}

impl StatusMetrics {
    /// Distinct class keys, and a latency histogram over the given bounds.
    pub open spec fn wf(self, bounds: Seq<u64>) -> bool {
        &&& self.latency.wf()
        &&& self.latency.bounds@ == bounds
        &&& keys_distinct(self.by_class@)
    }

    /// How often the class was observed under this status; zero when the
    /// class has no entry yet.
    pub open spec fn class_count(self, c: Class) -> u64 {
        let i = find_idx(self.by_class@, c);
        if i >= 0 {
            self.by_class@[i].1.total.value
        } else {
            0
        }
    }

    /// A fresh per-status record over the given histogram bounds.
    pub fn new(bounds: Vec<u64>) -> (s: StatusMetrics)
        ensures
            s.wf(bounds@),
            s.latency.counts@ == zero_counts(bounds@.len() + 1),
            s.latency.sum == 0,
            s.by_class@.len() == 0,
    {
        StatusMetrics { latency: Histogram::new(bounds), by_class: Vec::new() }
    }
}

impl Metrics {
    /// Distinct status keys, every per-status record well formed over the
    /// given histogram bounds.
    pub open spec fn wf(self, bounds: Seq<u64>) -> bool {
        &&& keys_distinct(self.by_status@)
        &&& forall|i: int|
            0 <= i < self.by_status@.len() ==> (#[trigger] self.by_status@[i]).1.wf(bounds)
    }

    /// Whether a status has an entry.
    pub open spec fn has_status(self, s: Option<u16>) -> bool {
        find_idx(self.by_status@, s) >= 0
    }

    /// The per-status record of a status that has one.
    pub open spec fn status(self, s: Option<u16>) -> StatusMetrics {
        self.by_status@[find_idx(self.by_status@, s)].1
    }

    /// How often the class was observed under the status; zero when either
    /// has no entry yet.
    pub open spec fn class_count(self, s: Option<u16>, c: Class) -> u64 {
        if self.has_status(s) {
            self.status(s).class_count(c)
        } else {
            0
        }
    }

    /// The latency bucket counts under the status; all zero when the status
    /// has no entry yet.
    pub open spec fn bucket_counts(self, s: Option<u16>, bounds: Seq<u64>) -> Seq<u64> {
        if self.has_status(s) {
            self.status(s).latency.counts@
        } else {
            zero_counts(bounds.len() + 1)
        }
    }

    /// The latency sum under the status; zero when the status has no entry.
    pub open spec fn latency_sum(self, s: Option<u16>) -> u64 {
        if self.has_status(s) {
            self.status(s).latency.sum
        } else {
            0
        }
    }

    /// A fresh record: unpoisoned, all totals zero, the last update at the
    /// epoch, and no per-status entries.
    pub fn new() -> (m: Metrics)
        ensures
            forall|bounds: Seq<u64>| m.wf(bounds),
            !m.poisoned,
            m.last_update == 0,
            m.total.value == 0,
            m.by_status@.len() == 0,
    {
        Metrics {
            poisoned: false,
            last_update: 0,
            total: Counter::new(),
            by_status: Vec::new(),
        }
    }
}

/// Equality test for status keys.
pub fn status_key_eq(a: Option<u16>, b: Option<u16>) -> (r: bool)
    ensures
        r == (a == b),
{
    match (a, b) {
        (Some(x), Some(y)) => x == y,
        (None, None) => true,
        _ => false,
    }
}

/// Equality test for classes.
pub fn class_eq(a: Class, b: Class) -> (r: bool)
    ensures
        r == (a == b),
{
    match (a, b) {
        (Class::Success, Class::Success) => true,
        (Class::Failure(x), Class::Failure(y)) => x == y,
        _ => false,
    }
}

} // verus!
