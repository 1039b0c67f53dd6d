//! A fixed-capacity buffer that maintains a running sum of its elements.
//!
//! When the buffer is full, pushing a new value evicts the oldest one. The
//! running sum uses saturating arithmetic, so pushes never overflow.

use std::collections::VecDeque;
use vstd::prelude::*;

verus! {

/// A fixed-capacity buffer of `usize` values with a running sum.
///
/// Once `capacity` values are held, each push removes the oldest value. The
/// `sum` field tracks the saturating sum of the held values, for cheap
/// averaging by callers.
#[derive(Debug, Clone)]
pub struct AveragingBuffer {
    /// The values currently held, oldest first.
    pub buffer: VecDeque<usize>,
    /// The maximum number of values held at once.
    pub capacity: usize,
    /// The saturating sum of the held values.
    pub sum: usize,
}

impl AveragingBuffer {
    /// Creates an empty buffer that will hold at most `capacity` values.
    pub fn new(capacity: usize) -> (buf: Self)
        ensures
            buf.buffer@ == Seq::<usize>::empty(),
            buf.capacity == capacity,
            buf.sum == 0,
    {
        Self { buffer: VecDeque::with_capacity(capacity), capacity, sum: 0 }
    }

    /// Adds `value`, evicting the oldest value when the buffer is full; the
    /// sum is adjusted with saturating arithmetic.
    pub fn push(&mut self, value: usize)
        ensures
            final(self).capacity == old(self).capacity,
            final(self).buffer@ == if old(self).buffer@.len() == old(self).capacity && old(
                self,
            ).buffer@.len() > 0 {
                old(self).buffer@.drop_first().push(value)
            } else {
                old(self).buffer@.push(value)
            },
            final(self).sum == (if old(self).buffer@.len() == old(self).capacity && old(
                self,
            ).buffer@.len() > 0 {
                old(self).sum.saturating_sub(old(self).buffer@[0])
            } else {
                old(self).sum
            }).saturating_add(value),
    {
        if self.buffer.len() == self.capacity {
            if let Some(oldest) = self.buffer.pop_front() {
                self.sum = self.sum.saturating_sub(oldest);
            }
        }
        self.buffer.push_back(value);
        self.sum = self.sum.saturating_add(value);
        proof {
            assert(old(self).buffer@.len() == old(self).capacity && old(self).buffer@.len() > 0
                ==> final(self).buffer@ =~= old(self).buffer@.drop_first().push(value));
        }
    }
}

impl Default for AveragingBuffer {
    /// An empty buffer of capacity 0.
    fn default() -> (buf: Self)
        ensures
            buf.buffer@ == Seq::<usize>::empty(),
            buf.capacity == 0,
            buf.sum == 0,
    {
        Self { buffer: VecDeque::new(), capacity: 0, sum: 0 }
    }
}

} // verus!
