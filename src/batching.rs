//! Batching of terminal output: bytes gather until the batch is full, a
//! chunk carries a newline (when so configured), or the first byte of the
//! batch has waited the configured delay.
//!
//! The caller reads chunks, feeds them with the current time in
//! milliseconds, arms a timer for [`SmartBatcher::deadline`] only while one
//! is set, and sends every returned batch as one `Event(Output)`.

use vstd::prelude::*;
use crate::config::BufferConfig;

verus! {

/// Whether `s` holds a newline byte.
pub open spec fn has_newline(s: Seq<u8>) -> bool {
    exists|i: int| 0 <= i < s.len() && s[i] == 10u8
}

/// Batches emitted and the batch kept after feeding `chunk` to `batch`.
pub open spec fn after_chunk(cfg: BufferConfig, batch: Seq<u8>, chunk: Seq<u8>) -> (Seq<Seq<u8>>, Seq<u8>) {
    let fits = batch.len() + chunk.len() <= cfg.max_batch_size;
    let early: Seq<Seq<u8>> = if !fits && batch.len() > 0 {
        seq![batch]
    } else {
        seq![]
    };
    let kept = if fits {
        batch + chunk
    } else {
        chunk
    };
    if (cfg.flush_on_newline && has_newline(chunk)) || kept.len() >= cfg.max_batch_size {
        (early.push(kept), Seq::empty())
    } else {
        (early, kept)
    }
}

/// All bytes of the batches, in order.
pub open spec fn flatten(bs: Seq<Seq<u8>>) -> Seq<u8>
    decreases bs.len(),
{
    if bs.len() == 0 {
        Seq::empty()
    } else {
        flatten(bs.drop_last()) + bs.last()
    }
}

/// The time by which a batch started at `started` must be sent.
pub open spec fn due(started: u64, delay: u64) -> u64 {
    if started as int + delay as int > u64::MAX {
        u64::MAX
    } else {
        (started + delay) as u64
    }
}

/// Output batching state of one pump.
pub struct SmartBatcher {
    config: BufferConfig,
    batch: Vec<u8>,
    started: u64,
}

impl SmartBatcher {
    pub closed spec fn config(&self) -> BufferConfig {
        self.config
    }

    /// Bytes waiting to be sent.
    pub closed spec fn pending(&self) -> Seq<u8> {
        self.batch@
    }

    /// When the first pending byte arrived.
    pub closed spec fn started(&self) -> u64 {
        self.started
    }

    pub fn new(config: BufferConfig) -> (b: SmartBatcher)
        ensures
            b.config() == config,
            b.pending().len() == 0,
    {
        SmartBatcher { config, batch: Vec::new(), started: 0 }
    }

    /// When the pending bytes must be sent; `None` while nothing waits, so
    /// that an idle terminal arms no timer.
    pub fn deadline(&self) -> (d: Option<u64>)
        ensures
            self.pending().len() == 0 ==> d is None,
            self.pending().len() > 0 ==> d == Some(due(self.started(), self.config().max_flush_delay_ms)),
    {
        if self.batch.len() == 0 {
            None
        } else if self.started > u64::MAX - self.config.max_flush_delay_ms {
            Some(u64::MAX)
        } else {
            Some(self.started + self.config.max_flush_delay_ms)
        }
    }

    /// Feeds a chunk read at `now`; returns the batches to send now, in
    /// order. No byte is lost or reordered: the batches followed by what
    /// stays pending are the old pending bytes followed by the chunk.
    pub fn on_chunk(&mut self, chunk: &[u8], now: u64) -> (out: Vec<Vec<u8>>)
        ensures
            final(self).config() == old(self).config(),
            (out@.map_values(|b: Vec<u8>| b@), final(self).pending()) == after_chunk(
                old(self).config(),
                old(self).pending(),
                chunk@,
            ),
            flatten(out@.map_values(|b: Vec<u8>| b@)) + final(self).pending() == old(self).pending() + chunk@,
            old(self).config().flush_on_newline && has_newline(chunk@) ==> final(self).pending().len() == 0,
            final(self).pending().len() > 0 && old(self).pending().len() > 0 && final(self).pending()
                == old(self).pending() + chunk@ ==> final(self).started() == old(self).started(),
            final(self).pending().len() > 0 && final(self).pending() == chunk@ && !(old(self).pending().len()
                > 0 && final(self).pending() == old(self).pending() + chunk@) ==> final(self).started() == now,
    {
        let max = self.config.max_batch_size;
        let ghost old_batch = self.batch@;
        let mut out: Vec<Vec<u8>> = Vec::new();
        let mut has_nl = false;
        let mut i: usize = 0;
        while i < chunk.len()
            invariant
                i <= chunk@.len(),
                has_nl == exists|j: int| 0 <= j < i && chunk@[j] == 10u8,
            decreases chunk@.len() - i,
        {
            if chunk[i] == 10u8 {
                has_nl = true;
            }
            i += 1;
        }
        let fits = self.batch.len() <= max && chunk.len() <= max - self.batch.len();
        if fits {
            if self.batch.len() == 0 {
                self.started = now;
            }
            let ghost st = self.started;
            let mut j: usize = 0;
            while j < chunk.len()
                invariant
                    self.started == st,
                    j <= chunk@.len(),
                    self.batch@ == old_batch + chunk@.subrange(0, j as int),
                    self.config == old(self).config,
                decreases chunk@.len() - j,
            {
                self.batch.push(chunk[j]);
                proof {
                    assert(old_batch + chunk@.subrange(0, j + 1) =~= (old_batch + chunk@.subrange(0, j as int)).push(
                        chunk@[j as int],
                    ));
                }
                j += 1;
            }
            assert(chunk@.subrange(0, chunk@.len() as int) =~= chunk@);
        } else {
            if self.batch.len() > 0 {
                let full = self.batch.split_off(0);
                assert(full@ =~= old_batch);
                out.push(full);
                assert(out@.map_values(|b: Vec<u8>| b@) =~= seq![old_batch]);
            }
            self.batch = vstd::slice::slice_to_vec(chunk);
            self.started = now;
            assert(self.batch@.len() == chunk@.len());
        }
        let ghost early = out@.map_values(|b: Vec<u8>| b@);
        proof {
            if !fits && old_batch.len() > 0 {
                assert(early =~= seq![old_batch]);
            } else {
                assert(early =~= Seq::<Seq<u8>>::empty());
            }
        }
        if (self.config.flush_on_newline && has_nl) || self.batch.len() >= max {
            let ghost kept = self.batch@;
            let full = self.batch.split_off(0);
            assert(full@ =~= kept);
            out.push(full);
            proof {
                assert(out@.map_values(|b: Vec<u8>| b@) =~= early.push(full@));
            }
        }
        proof {
            reveal_with_fuel(flatten, 3);
            let outs = out@.map_values(|b: Vec<u8>| b@);
            assert(has_nl == has_newline(chunk@));
            if outs.len() == 2 {
                assert(outs.drop_last().drop_last() =~= Seq::<Seq<u8>>::empty());
                assert(flatten(outs.drop_last()) =~= Seq::<u8>::empty() + outs[0]);
            } else if outs.len() == 1 {
                assert(outs.drop_last() =~= Seq::<Seq<u8>>::empty());
                assert(flatten(outs) =~= Seq::<u8>::empty() + outs[0]);
            }
            assert(flatten(outs) + self.batch@ =~= old_batch + chunk@);
        }
        out
    }

    /// Timer check at `now`: once the first pending byte has waited the
    /// configured delay, all pending bytes are returned as one batch.
    pub fn on_tick(&mut self, now: u64) -> (out: Option<Vec<u8>>)
        ensures
            final(self).config() == old(self).config(),
            old(self).pending().len() > 0 && now >= due(old(self).started(), old(self).config().max_flush_delay_ms)
                ==> (out matches Some(b) && b@ == old(self).pending()) && final(self).pending().len() == 0,
            !(old(self).pending().len() > 0 && now >= due(old(self).started(), old(self).config().max_flush_delay_ms))
                ==> out is None && final(self).pending() == old(self).pending() && final(self).started()
                == old(self).started(),
    {
        match self.deadline() {
            Some(d) => {
                if now >= d {
                    Some(self.batch.split_off(0))
                } else {
                    None
                }
            },
            None => None,
        }
    }

    /// End of input: whatever is pending, as a last batch.
    pub fn on_eof(&mut self) -> (out: Option<Vec<u8>>)
        ensures
            final(self).config() == old(self).config(),
            final(self).pending().len() == 0,
            old(self).pending().len() > 0 ==> (out matches Some(b) && b@ == old(self).pending()),
            old(self).pending().len() == 0 ==> out is None,
    {
        if self.batch.len() > 0 {
            Some(self.batch.split_off(0))
        } else {
            None
        }
    }
}

/// A pending byte is sent no later than the delay after the first byte of
/// its batch arrived: a tick at or after that time empties the batch.
pub proof fn lemma_batch_waits_at_most_delay(started: u64, delay: u64, now: u64)
    requires
        started as int + delay as int <= u64::MAX,
        now >= started + delay,
    ensures
        now >= due(started, delay),
        due(started, delay) == started + delay,
{
}

} // verus!
