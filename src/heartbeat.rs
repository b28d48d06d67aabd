//! Liveness of a connection seen from one end: when nothing has been heard
//! for longer than the timeout the connection is given up, otherwise a ping
//! is due at every tick. Times are whole seconds on the caller's clock.

use vstd::prelude::*;
use crate::error::CoreError;

verus! {

/// Seconds since `last`, zero when the clock reads earlier.
pub open spec fn idle_for(last: u64, now: u64) -> u64 {
    if now >= last {
        (now - last) as u64
    } else {
        0
    }
}

/// Milliseconds for `secs` seconds, at most the largest `u64`.
pub open spec fn millis_of(secs: u64) -> u64 {
    if secs as int * 1000 > u64::MAX {
        u64::MAX
    } else {
        (secs * 1000) as u64
    }
}

/// Last time anything arrived, and how long silence is tolerated.
pub struct Heartbeat {
    last_activity: u64,
    timeout_secs: u64,
}

impl Heartbeat {
    pub closed spec fn last(&self) -> u64 {
        self.last_activity
    }

    pub closed spec fn timeout(&self) -> u64 {
        self.timeout_secs
    }

    /// Activity recorded at `now`.
    pub fn new(timeout_secs: u64, now: u64) -> (h: Heartbeat)
        ensures
            h.last() == now,
            h.timeout() == timeout_secs,
    {
        Heartbeat { last_activity: now, timeout_secs }
    }

    /// Something arrived at `now`.
    pub fn record_activity(&mut self, now: u64)
        ensures
            final(self).last() == now,
            final(self).timeout() == old(self).timeout(),
    {
        self.last_activity = now;
    }

    /// Seconds of silence at `now`.
    pub fn idle_secs(&self, now: u64) -> (s: u64)
        ensures
            s == idle_for(self.last(), now),
    {
        now.saturating_sub(self.last_activity)
    }

    /// Decision at a tick: `Err(Timeout)` with the silence in milliseconds
    /// once it exceeds the timeout, else `Ok` and a ping is to be sent.
    pub fn on_tick(&self, now: u64) -> (r: Result<(), CoreError>)
        ensures
            idle_for(self.last(), now) > self.timeout() ==> r == Err::<(), CoreError>(
                CoreError::Timeout(millis_of(idle_for(self.last(), now))),
            ),
            idle_for(self.last(), now) <= self.timeout() ==> r is Ok,
    {
        let idle = self.idle_secs(now);
        if idle > self.timeout_secs {
            let ms = if idle > u64::MAX / 1000 { u64::MAX } else { idle * 1000 };
            Err(CoreError::Timeout(ms))
        } else {
            Ok(())
        }
    }
}

} // verus!
