//! A bounded buffer of recent log lines, so that a client that connects late
//! still sees what came before.

use vstd::prelude::*;
use std::collections::VecDeque;

verus! {

/// The lines after one more: where the buffer has reached its capacity the
/// oldest line, if there is one, makes room for the new line.
pub open spec fn lines_after(lines: Seq<String>, capacity: usize, line: String) -> Seq<String> {
    if lines.len() >= capacity && lines.len() > 0 {
        lines.drop_first().push(line)
    } else {
        lines.push(line)
    }
}

/// The buffer: the latest lines, oldest first.
pub struct LogBuffer {
    pub inner: VecDeque<String>,
    pub capacity: usize,
}

impl LogBuffer {
    /// An empty buffer for `capacity` lines.
    pub fn new(capacity: usize) -> (b: Self)
        ensures
            b.inner@ == Seq::<String>::empty(),
            b.capacity == capacity,
    {
        LogBuffer { inner: VecDeque::with_capacity(capacity), capacity }
    }

    /// Appends a line, dropping the oldest one where the buffer is full.
    pub fn push(&mut self, line: String)
        ensures
            final(self).inner@ == lines_after(old(self).inner@, old(self).capacity, line),
            final(self).capacity == old(self).capacity,
    {
        if self.inner.len() >= self.capacity {
            let _ = self.inner.pop_front();
            assert(old(self).inner@.len() > 0 ==> self.inner@ =~= old(self).inner@.drop_first());
        }
        self.inner.push_back(line);
    }

    /// A copy of the lines, oldest first.
    pub fn snapshot(&self) -> (lines: Vec<String>)
        ensures
            lines@ == self.inner@,
    {
        let mut lines: Vec<String> = Vec::new();
        let mut i: usize = 0;
        while i < self.inner.len()
            invariant
                i <= self.inner@.len(),
                lines@ == self.inner@.take(i as int),
            decreases self.inner.len() - i,
        {
            lines.push(self.inner[i].clone());
            assert(self.inner@.take(i + 1) =~= self.inner@.take(i as int).push(self.inner@[i as int]));
            i += 1;
        }
        assert(self.inner@.take(self.inner@.len() as int) =~= self.inner@);
        lines
    }
}

/// A buffer with room for at least one line never holds more lines than its
/// capacity.
pub proof fn lemma_buffer_stays_bounded(lines: Seq<String>, capacity: usize, line: String)
    requires
        capacity >= 1,
        lines.len() <= capacity,
    ensures
        lines_after(lines, capacity, line).len() <= capacity,
        lines_after(lines, capacity, line).last() == line,
{
}

} // verus!
