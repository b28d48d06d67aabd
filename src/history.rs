//! Line capture for session history: terminal output is accumulated, and
//! once the accumulated bytes are valid UTF-8 every complete line is taken
//! out; the unfinished last line is carried over to the next chunk.

use vstd::prelude::*;
use vstd::utf8::{decode_utf8, valid_utf8};
use crate::text::push_char;

verus! {

/// Accumulated bytes beyond which undecodable input is dropped.
pub const MAX_PENDING_BYTES: usize = 10_000;

/// Complete lines of `s` (without their newline) and the text after the
/// last newline.
pub open spec fn split_lines(s: Seq<char>) -> (Seq<Seq<char>>, Seq<char>)
    decreases s.len(),
{
    if s.len() == 0 {
        (seq![], seq![])
    } else {
        let (lines, cur) = split_lines(s.drop_last());
        if s.last() == '\n' {
            (lines.push(cur), seq![])
        } else {
            (lines, cur.push(s.last()))
        }
    }
}

/// The bytes after the last newline byte of `b`.
pub open spec fn byte_tail(b: Seq<u8>) -> Seq<u8>
    decreases b.len(),
{
    if b.len() == 0 {
        seq![]
    } else if b.last() == 10u8 {
        seq![]
    } else {
        byte_tail(b.drop_last()).push(b.last())
    }
}

/// Relies on `std::str::from_utf8`: it accepts exactly the valid UTF-8
/// byte strings, and the characters are their decoding.
#[verifier::external_body]
fn utf8_chars(b: &[u8]) -> (r: Option<Vec<char>>)
    ensures
        r is Some <==> valid_utf8(b@),
        r matches Some(cs) ==> cs@ == decode_utf8(b@),
{
    std::str::from_utf8(b).ok().map(|s| s.chars().collect())
}

/// Carries the unfinished line between chunks of one session's output.
pub struct LineCapture {
    pending: Vec<u8>,
}

impl LineCapture {
    /// Bytes carried over.
    pub closed spec fn carried(&self) -> Seq<u8> {
        self.pending@
    }

    pub fn new() -> (c: LineCapture)
        ensures
            c.carried().len() == 0,
    {
        LineCapture { pending: Vec::new() }
    }

    /// Adds a chunk of output and returns the lines it completes. While the
    /// accumulated bytes do not decode (a character split across chunks)
    /// nothing is returned. Carried bytes beyond the limit (binary output,
    /// or a line that never ends) are dropped.
    pub fn feed(&mut self, data: &[u8]) -> (lines: Vec<String>)
        ensures
            valid_utf8(old(self).carried() + data@) ==> lines@.map_values(|l: String| l@) == split_lines(
                decode_utf8(old(self).carried() + data@),
            ).0 && final(self).carried() == if byte_tail(old(self).carried() + data@).len() > MAX_PENDING_BYTES {
                Seq::<u8>::empty()
            } else {
                byte_tail(old(self).carried() + data@)
            },
            !valid_utf8(old(self).carried() + data@) ==> lines@.len() == 0 && final(self).carried() == if (
            old(self).carried() + data@).len() > MAX_PENDING_BYTES {
                Seq::<u8>::empty()
            } else {
                old(self).carried() + data@
            },
            final(self).carried().len() <= MAX_PENDING_BYTES,
    {
        let ghost all = self.pending@ + data@;
        let mut i: usize = 0;
        while i < data.len()
            invariant
                i <= data@.len(),
                self.pending@ == old(self).pending@ + data@.subrange(0, i as int),
            decreases data@.len() - i,
        {
            self.pending.push(data[i]);
            proof {
                assert(old(self).pending@ + data@.subrange(0, i + 1) =~= (old(self).pending@ + data@.subrange(
                    0,
                    i as int,
                )).push(data@[i as int]));
            }
            i += 1;
        }
        assert(data@.subrange(0, data@.len() as int) =~= data@);
        let mut lines: Vec<String> = Vec::new();
        match utf8_chars(self.pending.as_slice()) {
            None => {
                if self.pending.len() > MAX_PENDING_BYTES {
                    self.pending.clear();
                }
                assert(lines@.len() == 0);
                lines
            },
            Some(cs) => {
                let mut cur = String::new();
                let mut j: usize = 0;
                while j < cs.len()
                    invariant
                        j <= cs@.len(),
                        (lines@.map_values(|l: String| l@), cur@) == split_lines(cs@.subrange(0, j as int)),
                    decreases cs@.len() - j,
                {
                    let c = cs[j];
                    let ghost prev = lines@;
                    proof {
                        assert(cs@.subrange(0, j + 1).drop_last() =~= cs@.subrange(0, j as int));
                    }
                    if c == '\n' {
                        let done = cur;
                        cur = String::new();
                        lines.push(done);
                        proof {
                            assert(lines@.map_values(|l: String| l@) =~= prev.map_values(|l: String| l@).push(done@));
                            assert(cur@ =~= Seq::<char>::empty());
                        }
                    } else {
                        push_char(&mut cur, c);
                    }
                    j += 1;
                }
                assert(cs@.subrange(0, cs@.len() as int) =~= cs@);
                let mut tail: Vec<u8> = Vec::new();
                let mut k: usize = 0;
                while k < self.pending.len()
                    invariant
                        k <= self.pending@.len(),
                        tail@ == byte_tail(self.pending@.subrange(0, k as int)),
                    decreases self.pending@.len() - k,
                {
                    proof {
                        assert(self.pending@.subrange(0, k + 1).drop_last() =~= self.pending@.subrange(0, k as int));
                    }
                    if self.pending[k] == 10u8 {
                        tail.clear();
                        assert(tail@ =~= Seq::<u8>::empty());
                    } else {
                        tail.push(self.pending[k]);
                    }
                    k += 1;
                }
                assert(self.pending@.subrange(0, self.pending@.len() as int) =~= self.pending@);
                if tail.len() > MAX_PENDING_BYTES {
                    tail.clear();
                }
                self.pending = tail;
                lines
            },
        }
    }
}

} // verus!
