//! Ring buffer of raw terminal output, kept for resynchronising a client.

use vstd::prelude::*;
use std::collections::VecDeque;

verus! {

/// Number of bytes a buffer of capacity `max` actually keeps (one at least,
/// since each byte is stored after the eviction check).
pub open spec fn effective_cap(max: usize) -> nat {
    if max == 0 {
        1
    } else {
        max as nat
    }
}

/// The last `n` elements of `s` (all of them when it is shorter).
pub open spec fn keep_last(s: Seq<u8>, n: nat) -> Seq<u8> {
    if s.len() <= n {
        s
    } else {
        s.subrange(s.len() - n, s.len() as int)
    }
}

/// Raw output bytes, oldest evicted first.
pub struct SnapshotBuffer {
    buffer: VecDeque<u8>,
    max_bytes: usize,
}

impl SnapshotBuffer {
    pub closed spec fn contents(&self) -> Seq<u8> {
        self.buffer@
    }

    pub closed spec fn max(&self) -> usize {
        self.max_bytes
    }

    /// An empty buffer keeping at most `max_bytes` bytes.
    pub fn new(max_bytes: usize) -> (b: SnapshotBuffer)
        ensures
            b.contents().len() == 0,
            b.max() == max_bytes,
            b.contents().len() <= effective_cap(b.max()),
    {
        SnapshotBuffer { buffer: VecDeque::new(), max_bytes }
    }

    /// Appends `data`, evicting the oldest bytes beyond the capacity.
    pub fn push(&mut self, data: &[u8])
        requires
            old(self).contents().len() <= effective_cap(old(self).max()),
        ensures
            final(self).max() == old(self).max(),
            final(self).contents() == keep_last(old(self).contents() + data@, effective_cap(old(self).max())),
            final(self).contents().len() <= effective_cap(final(self).max()),
    {
        let ghost cap = effective_cap(self.max_bytes);
        let ghost start = self.buffer@;
        let mut i: usize = 0;
        while i < data.len()
            invariant
                i <= data@.len(),
                self.max_bytes == old(self).max_bytes,
                cap == effective_cap(self.max_bytes),
                self.buffer@.len() <= cap,
                i == 0 ==> self.buffer@ == start,
                i > 0 ==> self.buffer@ == keep_last(start + data@.subrange(0, i as int), cap),
            decreases data@.len() - i,
        {
            let ghost before = self.buffer@;
            if self.buffer.len() >= self.max_bytes {
                self.buffer.pop_front();
            }
            self.buffer.push_back(data[i]);
            proof {
                let all = start + data@.subrange(0, i + 1);
                let prev = start + data@.subrange(0, i as int);
                assert(all =~= prev.push(data@[i as int]));
                if i == 0 {
                    assert(prev =~= start);
                }
                let kp = keep_last(prev, cap);
                assert(before == kp);
                if before.len() >= self.max_bytes && before.len() > 0 {
                    assert(self.buffer@ =~= before.subrange(1, before.len() as int).push(data@[i as int]));
                    assert(self.buffer@ =~= keep_last(all, cap));
                } else {
                    assert(self.buffer@ =~= before.push(data@[i as int]));
                    assert(self.buffer@ =~= keep_last(all, cap));
                }
            }
            i += 1;
        }
        proof {
            assert(data@.subrange(0, data@.len() as int) =~= data@);
            if data@.len() == 0 {
                assert(start + data@ =~= start);
            }
        }
    }

    /// All buffered bytes, oldest first.
    pub fn get_snapshot(&self) -> (s: Vec<u8>)
        ensures
            s@ == self.contents(),
    {
        let mut out: Vec<u8> = Vec::new();
        let mut i: usize = 0;
        while i < self.buffer.len()
            invariant
                i <= self.buffer@.len(),
                out@ =~= self.buffer@.subrange(0, i as int),
            decreases self.buffer@.len() - i,
        {
            out.push(self.buffer[i]);
            i += 1;
        }
        assert(self.buffer@.subrange(0, self.buffer@.len() as int) =~= self.buffer@);
        out
    }

    pub fn len(&self) -> (n: usize)
        ensures
            n == self.contents().len(),
    {
        self.buffer.len()
    }

    pub fn is_empty(&self) -> (r: bool)
        ensures
            r == (self.contents().len() == 0),
    {
        self.buffer.len() == 0
    }

    pub fn clear(&mut self)
        ensures
            final(self).contents().len() == 0,
            final(self).max() == old(self).max(),
            final(self).contents().len() <= effective_cap(final(self).max()),
    {
        self.buffer.clear();
    }

    /// The configured capacity.
    pub fn capacity(&self) -> (n: usize)
        ensures
            n == self.max(),
    {
        self.max_bytes
    }
}

} // verus!
