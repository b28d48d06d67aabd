//! Per-peer connection quota, authentication-failure counters, and the
//! permanent ban list.
//!
//! A peer is identified by its address widened to 128 bits (IPv4 addresses
//! as IPv4-mapped IPv6).

use vstd::prelude::*;
use std::collections::{HashMap, HashSet};
use std::num::NonZeroU32;
use governor::{DefaultKeyedRateLimiter, Quota};
use crate::error::CoreError;

verus! {

broadcast use vstd::std_specs::hash::group_hash_axioms;

/// Connection attempts allowed per peer and minute.
pub const RATE_LIMIT: u32 = 5;

/// Consecutive authentication failures that ban a peer.
pub const AUTH_FAIL_THRESHOLD: u32 = 3;

#[verifier::external_type_specification]
#[verifier::external_body]
pub struct ExQuota(Quota);

/// Relies on `governor::Quota::per_minute`: a quota of `n` cells per
/// minute with a burst of `n`.
#[verifier::external_body]
fn quota_per_minute(n: u32) -> (q: Quota)
    requires
        n > 0,
{
    Quota::per_minute(NonZeroU32::new(n).unwrap())
}

/// Per-peer token buckets of governor's keyed rate limiter.
#[verifier::external_body]
pub struct ConnectionQuota {
    limiter: DefaultKeyedRateLimiter<u128>,
}

impl ConnectionQuota {
    /// Relies on `governor::RateLimiter::keyed`: a limiter with one bucket
    /// per key, created on first use.
    #[verifier::external_body]
    fn keyed(q: Quota) -> (c: ConnectionQuota) {
        ConnectionQuota { limiter: DefaultKeyedRateLimiter::keyed(q) }
    }

    /// Relies on `governor::RateLimiter::check_key`: takes one cell from the
    /// key's bucket when one is available. The outcome depends on the clock,
    /// so nothing is promised of it.
    #[verifier::external_body]
    fn check_key(&self, key: u128) -> (allowed: bool) {
        self.limiter.check_key(&key).is_ok()
    }
}

/// Failure count of `ip` in `m`; zero when absent.
pub open spec fn failure_count(m: Map<u128, u32>, ip: u128) -> u32 {
    if m.contains_key(ip) {
        m[ip]
    } else {
        0
    }
}

/// A counter after one more failure (it stays at the maximum).
pub open spec fn bumped(c: u32) -> u32 {
    if c == u32::MAX {
        c
    } else {
        (c + 1) as u32
    }
}

/// `(f2, b2)` is `(f, b)` after recording one failure of `ip`.
pub open spec fn records_failure(
    f: Map<u128, u32>,
    b: Set<u128>,
    f2: Map<u128, u32>,
    b2: Set<u128>,
    ip: u128,
) -> bool {
    let c = bumped(failure_count(f, ip));
    &&& f2 == f.insert(ip, c)
    &&& b2 == if c >= AUTH_FAIL_THRESHOLD {
        b.insert(ip)
    } else {
        b
    }
}

/// Connection quota, failure counters and ban list.
pub struct RateLimiterStore {
    limiter: ConnectionQuota,
    auth_failures: HashMap<u128, u32>,
    banned_ips: HashSet<u128>,
}

impl RateLimiterStore {
    /// Failure counters by peer.
    pub closed spec fn failures(&self) -> Map<u128, u32> {
        self.auth_failures@
    }

    /// Banned peers.
    pub closed spec fn banned(&self) -> Set<u128> {
        self.banned_ips@
    }

    /// No counters, nobody banned, a quota of five connections a minute.
    pub fn new() -> (s: RateLimiterStore)
        ensures
            s.failures() == Map::<u128, u32>::empty(),
            s.banned() == Set::<u128>::empty(),
    {
        RateLimiterStore {
            limiter: ConnectionQuota::keyed(quota_per_minute(RATE_LIMIT)),
            auth_failures: HashMap::new(),
            banned_ips: HashSet::new(),
        }
    }

    pub fn is_banned(&self, ip: u128) -> (r: bool)
        ensures
            r == self.banned().contains(ip),
    {
        self.banned_ips.contains(&ip)
    }

    /// Bans `ip` for good.
    pub fn ban_ip(&mut self, ip: u128)
        ensures
            final(self).banned() == old(self).banned().insert(ip),
            final(self).failures() == old(self).failures(),
    {
        self.banned_ips.insert(ip);
    }

    /// Admits a connection attempt from `ip`: refused at once when banned,
    /// else one cell of its bucket is taken, and refused when none is left.
    pub fn check(&self, ip: u128) -> (r: Result<(), CoreError>)
        ensures
            self.banned().contains(ip) ==> r == Err::<(), CoreError>(CoreError::IpBanned { ip }),
            !self.banned().contains(ip) ==> (r is Ok || r == Err::<(), CoreError>(
                CoreError::RateLimitExceeded,
            )),
    {
        if self.is_banned(ip) {
            return Err(CoreError::IpBanned { ip });
        }
        if self.limiter.check_key(ip) {
            Ok(())
        } else {
            Err(CoreError::RateLimitExceeded)
        }
    }

    /// Counts one failed authentication of `ip`; at the threshold the peer
    /// is banned and `IpBanned` returned.
    pub fn record_auth_failure(&mut self, ip: u128) -> (r: Result<(), CoreError>)
        ensures
            records_failure(old(self).failures(), old(self).banned(), final(self).failures(), final(self).banned(), ip),
            bumped(failure_count(old(self).failures(), ip)) >= AUTH_FAIL_THRESHOLD ==> r == Err::<(), CoreError>(
                CoreError::IpBanned { ip },
            ),
            bumped(failure_count(old(self).failures(), ip)) < AUTH_FAIL_THRESHOLD ==> r is Ok,
    {
        let current = match self.auth_failures.get(&ip) {
            Some(c) => *c,
            None => 0,
        };
        let count = if current == u32::MAX { current } else { current + 1 };
        self.auth_failures.insert(ip, count);
        if count >= AUTH_FAIL_THRESHOLD {
            self.ban_ip(ip);
            Err(CoreError::IpBanned { ip })
        } else {
            Ok(())
        }
    }

    /// Clears the failure counter of `ip` after a successful authentication.
    pub fn reset_auth_failures(&mut self, ip: u128)
        ensures
            final(self).failures() == old(self).failures().remove(ip),
            final(self).banned() == old(self).banned(),
    {
        self.auth_failures.remove(&ip);
    }

    pub fn auth_failure_count(&self, ip: u128) -> (n: u32)
        ensures
            n == failure_count(self.failures(), ip),
    {
        match self.auth_failures.get(&ip) {
            Some(c) => *c,
            None => 0,
        }
    }

    pub fn banned_count(&self) -> (n: usize)
        ensures
            n == self.banned().len(),
    {
        self.banned_ips.len()
    }

    /// Keeps every counter: failure records carry no age to sweep by.
    pub fn cleanup_auth_failures(&mut self)
        ensures
            final(self).failures() == old(self).failures(),
            final(self).banned() == old(self).banned(),
    {
    }
}

/// Three failures of one peer in a row, from any starting count, leave it
/// banned, so that `check` refuses it.
pub proof fn lemma_three_failures_ban(
    f0: Map<u128, u32>,
    b0: Set<u128>,
    f1: Map<u128, u32>,
    b1: Set<u128>,
    f2: Map<u128, u32>,
    b2: Set<u128>,
    f3: Map<u128, u32>,
    b3: Set<u128>,
    ip: u128,
)
    requires
        records_failure(f0, b0, f1, b1, ip),
        records_failure(f1, b1, f2, b2, ip),
        records_failure(f2, b2, f3, b3, ip),
    ensures
        b3.contains(ip),
        failure_count(f3, ip) >= AUTH_FAIL_THRESHOLD,
{
    assert(failure_count(f1, ip) >= 1);
    assert(failure_count(f2, ip) >= 2);
    assert(failure_count(f3, ip) >= 3);
}

/// After the counter is cleared, one failure counts as the first and bans
/// nobody new.
pub proof fn lemma_reset_then_single_failure(
    f0: Map<u128, u32>,
    f1: Map<u128, u32>,
    b1: Set<u128>,
    f2: Map<u128, u32>,
    b2: Set<u128>,
    ip: u128,
)
    requires
        f1 == f0.remove(ip),
        records_failure(f1, b1, f2, b2, ip),
    ensures
        failure_count(f2, ip) == 1,
        b2 == b1,
{
}

} // verus!
