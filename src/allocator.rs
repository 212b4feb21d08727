//! The source of automatically assigned note and card ids.

use vstd::prelude::*;

verus! {

/// Hands out ids one after another, starting from a write's timestamp in
/// milliseconds. Ids it issues within one write are strictly increasing.
pub struct IdAllocator {
    next: i64,
}

impl IdAllocator {
    /// The id the next call of `next_id` issues.
    pub closed spec fn upcoming(&self) -> i64 {
        self.next
    }

    /// An allocator whose first id is `start`.
    pub fn new(start: i64) -> (r: IdAllocator)
        ensures
            r.upcoming() == start,
    {
        IdAllocator { next: start }
    }

    /// The id the next call of `next_id` issues.
    pub fn peek(&self) -> (r: i64)
        ensures
            r == self.upcoming(),
    {
        self.next
    }

    /// Issues the next id, or `None` once every `i64` id has been issued.
    pub fn next_id(&mut self) -> (r: Option<i64>)
        ensures
            old(self).upcoming() < i64::MAX ==> r == Some(old(self).upcoming())
                && final(self).upcoming() == old(self).upcoming() + 1,
            old(self).upcoming() == i64::MAX ==> r is None && final(self).upcoming()
                == old(self).upcoming(),
    {
        if self.next == i64::MAX {
            None
        } else {
            let id = self.next;
            self.next = self.next + 1;
            Some(id)
        }
    }
}

} // verus!
