//! A fixed-capacity buffer that keeps a running sum for averaging.

use std::collections::VecDeque;
use vstd::prelude::*;

verus! {

/// Sum of a sequence of `usize` values, as an unbounded integer.
pub open spec fn seq_sum(s: Seq<usize>) -> int
    decreases s.len(),
{
    if s.len() == 0 {
        0
    } else {
        s[0] + seq_sum(s.drop_first())
    }
}

proof fn lemma_seq_sum_nonneg(s: Seq<usize>)
    ensures
        seq_sum(s) >= 0,
    decreases s.len(),
{
    if s.len() > 0 {
        lemma_seq_sum_nonneg(s.drop_first());
    }
}

proof fn lemma_seq_sum_push(s: Seq<usize>, v: usize)
    ensures
        seq_sum(s.push(v)) == seq_sum(s) + v,
    decreases s.len(),
{
    assert(seq_sum(s.push(v)) == s.push(v)[0] + seq_sum(s.push(v).drop_first()));
    if s.len() == 0 {
        assert(s.push(v)[0] == v);
        assert(s.push(v).drop_first() =~= Seq::<usize>::empty());
        assert(seq_sum(s.push(v).drop_first()) == 0);
    } else {
        assert(s.push(v)[0] == s[0]);
        assert(s.push(v).drop_first() =~= s.drop_first().push(v));
        lemma_seq_sum_push(s.drop_first(), v);
    }
}

/// A fixed-capacity buffer of `usize` values with an exact running sum.
///
/// Once `capacity` values are held, each push evicts the oldest value. The
/// sum is kept exactly; `push` therefore asks its caller to stay within the
/// machine's range.
#[derive(Debug, Clone)]
pub struct AveragingBuffer {
    /// The values currently held, oldest first.
    pub buffer: VecDeque<usize>,
    /// The maximum number of values held at once.
    pub capacity: usize,
    /// The sum of the held values.
    pub sum: usize,
}

impl AveragingBuffer {
    /// The sum field is exactly the sum of the held values.
    pub open spec fn wf(&self) -> bool {
        self.sum == seq_sum(self.buffer@)
    }

    /// The values a push will keep: all of them, or all but the oldest when
    /// the buffer is full.
    pub open spec fn retained(&self) -> Seq<usize> {
        if self.buffer@.len() == self.capacity && self.buffer@.len() > 0 {
            self.buffer@.drop_first()
        } else {
            self.buffer@
        }
    }

    /// Creates an empty buffer that will hold at most `capacity` values.
    pub fn new(capacity: usize) -> (buf: Self)
        ensures
            buf.wf(),
            buf.buffer@ == Seq::<usize>::empty(),
            buf.capacity == capacity,
            buf.sum == 0,
    {
        Self { buffer: VecDeque::with_capacity(capacity), capacity, sum: 0 }
    }

    /// Adds `value`, evicting the oldest value when the buffer is full.
    /// The sum of the values the push keeps, plus `value`, must fit the
    /// machine's range.
    pub fn push(&mut self, value: usize)
        requires
            old(self).wf(),
            seq_sum(old(self).retained()) + value <= usize::MAX,
        ensures
            final(self).wf(),
            final(self).capacity == old(self).capacity,
            final(self).buffer@ == old(self).retained().push(value),
    {
        if self.buffer.len() == self.capacity {
            if let Some(oldest) = self.buffer.pop_front() {
                proof {
                    lemma_seq_sum_nonneg(old(self).buffer@.drop_first());
                    assert(self.buffer@ =~= old(self).buffer@.drop_first());
                }
                self.sum = self.sum - oldest;
            }
        }
        proof {
            lemma_seq_sum_nonneg(self.buffer@);
            lemma_seq_sum_push(self.buffer@, value);
        }
        self.buffer.push_back(value);
        self.sum = self.sum + value;
    }

    /// The mean of the held values, rounded toward zero, or absence when the
    /// buffer is empty.
    pub fn avg(&self) -> (r: Option<usize>)
        requires
            self.wf(),
        ensures
            self.buffer@.len() == 0 ==> r is None,
            self.buffer@.len() > 0 ==> r == Some(
                (seq_sum(self.buffer@) / self.buffer@.len() as int) as usize,
            ),
    {
        if self.buffer.len() == 0 {
            None
        } else {
            proof {
                lemma_seq_sum_nonneg(self.buffer@);
            }
            Some(self.sum / self.buffer.len())
        }
    }
}

impl Default for AveragingBuffer {
    /// An empty buffer of capacity 0.
    fn default() -> (buf: Self)
        ensures
            buf.wf(),
            buf.buffer@ == Seq::<usize>::empty(),
            buf.capacity == 0,
            buf.sum == 0,
    {
        Self { buffer: VecDeque::new(), capacity: 0, sum: 0 }
    }
}

} // verus!
