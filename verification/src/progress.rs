//! Progress accounting: how many items were enqueued, how many were
//! processed, and how many bytes arrived.
use vstd::prelude::*;

verus! {

/// The shared counters the producer and the workers report into.
/// `items_done` counts items processed — with success or after exhausted
/// retries alike.
#[derive(Clone, Copy, Debug, PartialEq, Eq, Structural)]
pub struct Progress {
    pub items_total: u64,
    pub items_done: u64,
    pub bytes_done: u64,
}

/// The counters never report more items done than were enqueued.
pub open spec fn progress_wf(p: Progress) -> bool {
    p.items_done <= p.items_total
}

impl Progress {
    /// All counters at zero.
    pub fn new() -> (r: Progress)
        ensures
            r == (Progress { items_total: 0, items_done: 0, bytes_done: 0 }),
            progress_wf(r),
    {
        Progress { items_total: 0, items_done: 0, bytes_done: 0 }
    }

    /// The producer enqueued one more item.
    pub fn note_enqueued(&mut self)
        requires
            old(self).items_total < u64::MAX,
        ensures
            final(self).items_total == old(self).items_total + 1,
            final(self).items_done == old(self).items_done,
            final(self).bytes_done == old(self).bytes_done,
    {
        self.items_total = self.items_total + 1;
    }

    /// A worker finished with one item, successfully or not.
    pub fn note_item_done(&mut self)
        requires
            old(self).items_done < old(self).items_total,
        ensures
            final(self).items_done == old(self).items_done + 1,
            final(self).items_total == old(self).items_total,
            final(self).bytes_done == old(self).bytes_done,
            progress_wf(*old(self)) ==> progress_wf(*final(self)),
    {
        self.items_done = self.items_done + 1;
    }

    /// A worker received `n` more body bytes; the counter saturates
    /// rather than overflow.
    pub fn note_bytes(&mut self, n: u64)
        ensures
            final(self).bytes_done == if old(self).bytes_done + n <= u64::MAX {
                old(self).bytes_done + n
            } else {
                u64::MAX as int
            },
            final(self).items_total == old(self).items_total,
            final(self).items_done == old(self).items_done,
    {
        self.bytes_done = self.bytes_done.saturating_add(n);
    }
}

} // verus!
