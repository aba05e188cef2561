//! The monotonic counter primitive.

use vstd::prelude::*;

verus! {

/// Increment that saturates at `u64::MAX` instead of wrapping.
pub open spec fn sat_incr(x: u64) -> u64 {
    if x == u64::MAX {
        x
    } else {
        (x + 1) as u64
    }
}

/// Addition that saturates at `u64::MAX` instead of wrapping.
pub open spec fn sat_add(x: u64, y: u64) -> u64 {
    if x + y > u64::MAX {
        u64::MAX
    } else {
        (x + y) as u64
    }
}

/// A monotonic event counter.  Its only mutation is `incr`, which saturates
/// at the word width; reads are non-destructive.
#[derive(Clone, Copy, Debug)]
pub struct Counter {
    pub value: u64,
}

impl Counter {
    pub fn new() -> (c: Counter)
        ensures
            c.value == 0,
    {
        Counter { value: 0 }
    }

    pub fn incr(&mut self)
        ensures
            final(self).value == sat_incr(old(self).value),
    {
        if self.value < u64::MAX {
            self.value = self.value + 1;
        }
    }

    pub fn get(&self) -> (v: u64)
        ensures
            v == self.value,
    {
        self.value
    }
}

} // verus!
