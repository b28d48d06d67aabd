//! The set of currently valid tokens, each with its creation time, expired
//! lazily after a time-to-live.
//!
//! Times are milliseconds on a clock the caller reads; a creation time later
//! than the reading counts as expired, as a clock that went backwards does.

use vstd::prelude::*;
use crate::auth::{AuthToken, TOKEN_SIZE};

verus! {

/// Default time-to-live of a token: seven days, in milliseconds.
pub const DEFAULT_TOKEN_TTL_MS: u64 = 7 * 24 * 60 * 60 * 1000;

/// Whether a token created at `created` is still valid at `now`.
pub open spec fn is_live(created: u64, now: u64, ttl: u64) -> bool {
    created <= now && now - created < ttl
}

/// Token bytes of entry `i`.
pub open spec fn key_at(v: Seq<(AuthToken, u64)>, i: int) -> Seq<u8> {
    v[i].0@
}

/// No token occurs twice.
pub open spec fn keys_unique(v: Seq<(AuthToken, u64)>) -> bool {
    forall|i: int, j: int|
        0 <= i < v.len() && 0 <= j < v.len() && i != j ==> key_at(v, i) != key_at(v, j)
}

pub open spec fn has_key(v: Seq<(AuthToken, u64)>, k: Seq<u8>) -> bool {
    exists|i: int| 0 <= i < v.len() && key_at(v, i) == k
}

/// The entries as a map from token bytes to creation time.
pub open spec fn entries_map(v: Seq<(AuthToken, u64)>) -> Map<Seq<u8>, u64> {
    Map::new(
        |k: Seq<u8>| has_key(v, k),
        |k: Seq<u8>| v[choose|i: int| 0 <= i < v.len() && key_at(v, i) == k].1,
    )
}

proof fn lemma_lookup(v: Seq<(AuthToken, u64)>, i: int)
    requires
        keys_unique(v),
        0 <= i < v.len(),
    ensures
        entries_map(v).contains_key(key_at(v, i)),
        entries_map(v)[key_at(v, i)] == v[i].1,
{
    let k = key_at(v, i);
    assert(has_key(v, k));
    let j = choose|j: int| 0 <= j < v.len() && key_at(v, j) == k;
    assert(j == i);
}

/// Two maps agree at `k`: both hold it with the same value, or neither does.
pub open spec fn agree_at(m1: Map<Seq<u8>, u64>, m2: Map<Seq<u8>, u64>, k: Seq<u8>) -> bool {
    (m1.contains_key(k) <==> m2.contains_key(k)) && (m1.contains_key(k) ==> m1[k] == m2[k])
}

proof fn lemma_map_eq(m1: Map<Seq<u8>, u64>, m2: Map<Seq<u8>, u64>)
    requires
        forall|k: Seq<u8>| #[trigger] agree_at(m1, m2, k),
    ensures
        m1 == m2,
{
    assert forall|k: Seq<u8>| m1.contains_key(k) <==> m2.contains_key(k) by {
        assert(agree_at(m1, m2, k));
    }
    assert forall|k: Seq<u8>| m1.contains_key(k) implies m1[k] == m2[k] by {
        assert(agree_at(m1, m2, k));
    }
    assert(m1 =~= m2);
}

proof fn lemma_map_len(v: Seq<(AuthToken, u64)>)
    requires
        keys_unique(v),
    ensures
        entries_map(v).dom().finite(),
        entries_map(v).len() == v.len(),
{
    let keys = v.map_values(|e: (AuthToken, u64)| e.0@);
    assert(keys.no_duplicates()) by {
        assert forall|i: int, j: int|
            0 <= i < keys.len() && 0 <= j < keys.len() && i != j implies keys[i] != keys[j] by {
            assert(keys[i] == key_at(v, i));
            assert(keys[j] == key_at(v, j));
        }
    }
    assert(entries_map(v).dom() =~= keys.to_set()) by {
        assert forall|k: Seq<u8>| entries_map(v).dom().contains(k) <==> keys.to_set().contains(k) by {
            if has_key(v, k) {
                let i = choose|i: int| 0 <= i < v.len() && key_at(v, i) == k;
                assert(keys[i] == k);
            }
            if keys.contains(k) {
                let i = choose|i: int| 0 <= i < keys.len() && keys[i] == k;
                assert(key_at(v, i) == k);
            }
        }
    }
    keys.unique_seq_to_set();
}

/// Valid tokens with their creation times.
pub struct TokenStore {
    entries: Vec<(AuthToken, u64)>,
    ttl_ms: u64,
}

impl View for TokenStore {
    type V = Map<Seq<u8>, u64>;

    closed spec fn view(&self) -> Map<Seq<u8>, u64> {
        entries_map(self.entries@)
    }
}

impl TokenStore {
    /// The store's invariant: each token occurs once.
    pub closed spec fn wf(&self) -> bool {
        keys_unique(self.entries@)
    }

    /// Time-to-live of the tokens, in milliseconds.
    pub closed spec fn ttl(&self) -> u64 {
        self.ttl_ms
    }

    /// An empty store with the default time-to-live.
    pub fn new() -> (s: TokenStore)
        ensures
            s.wf(),
            s@ == Map::<Seq<u8>, u64>::empty(),
            s.ttl() == DEFAULT_TOKEN_TTL_MS,
    {
        let s = TokenStore { entries: Vec::new(), ttl_ms: DEFAULT_TOKEN_TTL_MS };
        assert(s@ =~= Map::<Seq<u8>, u64>::empty());
        s
    }

    /// An empty store whose tokens live `ttl_ms` milliseconds.
    pub fn with_ttl(ttl_ms: u64) -> (s: TokenStore)
        ensures
            s.wf(),
            s@ == Map::<Seq<u8>, u64>::empty(),
            s.ttl() == ttl_ms,
    {
        let s = TokenStore { entries: Vec::new(), ttl_ms };
        assert(s@ =~= Map::<Seq<u8>, u64>::empty());
        s
    }

    fn find(&self, token: &AuthToken) -> (r: Option<usize>)
        requires
            self.wf(),
        ensures
            r matches Some(i) ==> i < self.entries@.len() && key_at(self.entries@, i as int) == token@,
            r is None ==> !self@.contains_key(token@),
    {
        let mut i: usize = 0;
        while i < self.entries.len()
            invariant
                i <= self.entries@.len(),
                forall|j: int| 0 <= j < i ==> key_at(self.entries@, j) != token@,
            decreases self.entries@.len() - i,
        {
            if self.entries[i].0.same_as(token) {
                return Some(i);
            }
            i += 1;
        }
        None
    }

    /// Records `token` as created at `now`; an existing entry gets the new time.
    pub fn add_token(&mut self, token: AuthToken, now: u64)
        requires
            old(self).wf(),
        ensures
            final(self).wf(),
            final(self)@ == old(self)@.insert(token@, now),
            final(self).ttl() == old(self).ttl(),
    {
        let ghost old_v = self.entries@;
        match self.find(&token) {
            Some(i) => {
                self.entries.set(i, (token, now));
                proof {
                    let v = self.entries@;
                    assert(keys_unique(v)) by {
                        assert forall|a: int, b: int|
                            0 <= a < v.len() && 0 <= b < v.len() && a != b implies key_at(v, a)
                            != key_at(v, b) by {
                            assert(key_at(v, a) == key_at(old_v, a));
                            assert(key_at(v, b) == key_at(old_v, b));
                        }
                    }
                    assert forall|k: Seq<u8>| #[trigger] agree_at(entries_map(v), entries_map(old_v).insert(token@, now), k) by {
                        if has_key(v, k) {
                            let j = choose|j: int| 0 <= j < v.len() && key_at(v, j) == k;
                            lemma_lookup(v, j);
                            if j != i {
                                lemma_lookup(old_v, j);
                            }
                        }
                        if has_key(old_v, k) {
                            let j = choose|j: int| 0 <= j < old_v.len() && key_at(old_v, j) == k;
                            assert(key_at(v, j) == k);
                        }
                        lemma_lookup(v, i as int);
                    }
                    lemma_map_eq(entries_map(v), entries_map(old_v).insert(token@, now));
                }
            },
            None => {
                self.entries.push((token, now));
                proof {
                    let v = self.entries@;
                    let n = old_v.len() as int;
                    assert(keys_unique(v)) by {
                        assert forall|a: int, b: int|
                            0 <= a < v.len() && 0 <= b < v.len() && a != b implies key_at(v, a)
                            != key_at(v, b) by {
                            if a < n && b < n {
                                assert(key_at(v, a) == key_at(old_v, a));
                                assert(key_at(v, b) == key_at(old_v, b));
                            } else if a < n {
                                assert(key_at(v, a) == key_at(old_v, a));
                                lemma_lookup(old_v, a);
                            } else {
                                assert(key_at(v, b) == key_at(old_v, b));
                                lemma_lookup(old_v, b);
                            }
                        }
                    }
                    assert forall|k: Seq<u8>| #[trigger] agree_at(entries_map(v), entries_map(old_v).insert(token@, now), k) by {
                        if has_key(v, k) {
                            let j = choose|j: int| 0 <= j < v.len() && key_at(v, j) == k;
                            lemma_lookup(v, j);
                            if j != n {
                                assert(key_at(old_v, j) == k);
                                lemma_lookup(old_v, j);
                            }
                        }
                        if has_key(old_v, k) {
                            let j = choose|j: int| 0 <= j < old_v.len() && key_at(old_v, j) == k;
                            assert(key_at(v, j) == k);
                        }
                        lemma_lookup(v, n);
                    }
                    lemma_map_eq(entries_map(v), entries_map(old_v).insert(token@, now));
                }
            },
        }
    }

    fn remove_at(&mut self, i: usize)
        requires
            old(self).wf(),
            i < old(self).entries@.len(),
        ensures
            final(self).wf(),
            final(self)@ == old(self)@.remove(key_at(old(self).entries@, i as int)),
            final(self).ttl() == old(self).ttl(),
    {
        let ghost old_v = self.entries@;
        let ghost gone = key_at(old_v, i as int);
        self.entries.remove(i);
        proof {
            let v = self.entries@;
            assert forall|j: int| 0 <= j < v.len() implies #[trigger] key_at(v, j) == if j < i {
                key_at(old_v, j)
            } else {
                key_at(old_v, j + 1)
            } by {}
            assert(keys_unique(v)) by {
                assert forall|a: int, b: int|
                    0 <= a < v.len() && 0 <= b < v.len() && a != b implies key_at(v, a) != key_at(v, b) by {
                    let a2 = if a < i { a } else { a + 1 };
                    let b2 = if b < i { b } else { b + 1 };
                    assert(key_at(v, a) == key_at(old_v, a2));
                    assert(key_at(v, b) == key_at(old_v, b2));
                }
            }
            assert forall|k: Seq<u8>| #[trigger] agree_at(entries_map(v), entries_map(old_v).remove(gone), k) by {
                if has_key(v, k) {
                    let j = choose|j: int| 0 <= j < v.len() && key_at(v, j) == k;
                    let j2 = if j < i { j } else { j + 1 };
                    assert(key_at(old_v, j2) == k);
                    lemma_lookup(v, j);
                    lemma_lookup(old_v, j2);
                    assert(j2 != i);
                }
                if has_key(old_v, k) && k != gone {
                    let j = choose|j: int| 0 <= j < old_v.len() && key_at(old_v, j) == k;
                    assert(j != i);
                    let j1 = if j < i { j } else { j - 1 };
                    assert(key_at(v, j1) == k);
                }
            }
            lemma_map_eq(entries_map(v), entries_map(old_v).remove(gone));
        }
    }

    /// Forgets `token`.
    pub fn remove_token(&mut self, token: &AuthToken)
        requires
            old(self).wf(),
        ensures
            final(self).wf(),
            final(self)@ == old(self)@.remove(token@),
            final(self).ttl() == old(self).ttl(),
    {
        match self.find(token) {
            Some(i) => {
                self.remove_at(i);
            },
            None => {
                assert(self@ =~= self@.remove(token@));
            },
        }
    }

    /// Whether `token` is present and still live at `now`. An expired entry
    /// that is looked up is removed.
    pub fn validate(&mut self, token: &AuthToken, now: u64) -> (r: bool)
        requires
            old(self).wf(),
        ensures
            final(self).wf(),
            final(self).ttl() == old(self).ttl(),
            r == (old(self)@.contains_key(token@) && is_live(old(self)@[token@], now, old(self).ttl())),
            final(self)@ == if old(self)@.contains_key(token@) && !r {
                old(self)@.remove(token@)
            } else {
                old(self)@
            },
    {
        match self.find(token) {
            Some(i) => {
                proof {
                    lemma_lookup(self.entries@, i as int);
                }
                let created = self.entries[i].1;
                if created <= now && now - created < self.ttl_ms {
                    true
                } else {
                    self.remove_at(i);
                    false
                }
            },
            None => false,
        }
    }

    /// Draws a fresh token and records it as created at `now`.
    pub fn generate_token(&mut self, now: u64) -> (t: AuthToken)
        requires
            old(self).wf(),
        ensures
            final(self).wf(),
            final(self)@ == old(self)@.insert(t@, now),
            final(self).ttl() == old(self).ttl(),
            t@.len() == TOKEN_SIZE,
    {
        let t = AuthToken::generate();
        self.add_token(t, now);
        t
    }

    /// Number of stored tokens, expired ones not yet swept included.
    pub fn token_count(&self) -> (n: usize)
        requires
            self.wf(),
        ensures
            n == self@.len(),
    {
        proof {
            lemma_map_len(self.entries@);
        }
        self.entries.len()
    }

    /// Removes every token.
    pub fn clear(&mut self)
        ensures
            final(self).wf(),
            final(self)@ == Map::<Seq<u8>, u64>::empty(),
            final(self).ttl() == old(self).ttl(),
    {
        self.entries.clear();
        assert(self@ =~= Map::<Seq<u8>, u64>::empty());
    }

    /// Removes every token that is not live at `now`; returns how many.
    pub fn cleanup_expired(&mut self, now: u64) -> (removed: usize)
        requires
            old(self).wf(),
        ensures
            final(self).wf(),
            final(self).ttl() == old(self).ttl(),
            final(self)@ == old(self)@.restrict(
                old(self)@.dom().filter(|k: Seq<u8>| is_live(old(self)@[k], now, old(self).ttl())),
            ),
            removed == old(self)@.len() - final(self)@.len(),
    {
        let ghost old_v = self.entries@;
        let ttl = self.ttl_ms;
        let mut kept: Vec<(AuthToken, u64)> = Vec::new();
        let mut i: usize = 0;
        let ghost mut src: Seq<int> = Seq::empty();
        while i < self.entries.len()
            invariant
                old_v == self.entries@,
                ttl == self.ttl_ms,
                keys_unique(old_v),
                i <= old_v.len(),
                kept@.len() == src.len(),
                kept@.len() <= i,
                forall|a: int| 0 <= a < src.len() ==> 0 <= #[trigger] src[a] < i,
                forall|a: int, b: int| 0 <= a < b < src.len() ==> src[a] < src[b],
                forall|a: int| 0 <= a < src.len() ==> kept@[a] == old_v[#[trigger] src[a]],
                forall|a: int| 0 <= a < src.len() ==> is_live(#[trigger] old_v[src[a]].1, now, ttl),
                forall|j: int|
                    0 <= j < i && is_live(#[trigger] old_v[j].1, now, ttl) ==> exists|a: int|
                        0 <= a < src.len() && src[a] == j,
            decreases old_v.len() - i,
        {
            let created = self.entries[i].1;
            if created <= now && now - created < ttl {
                kept.push(self.entries[i]);
                proof {
                    let ghost old_src = src;
                    src = src.push(i as int);
                    assert forall|j: int|
                        0 <= j < i + 1 && is_live(#[trigger] old_v[j].1, now, ttl) implies exists|a: int|
                        0 <= a < src.len() && src[a] == j by {
                        if j == i {
                            assert(src[src.len() - 1] == j);
                        } else {
                            let a = choose|a: int| 0 <= a < old_src.len() && old_src[a] == j;
                            assert(src[a] == j);
                        }
                    }
                }
            }
            i += 1;
        }
        let ghost kv = kept@;
        proof {
            assert(keys_unique(kv)) by {
                assert forall|a: int, b: int|
                    0 <= a < kv.len() && 0 <= b < kv.len() && a != b implies key_at(kv, a) != key_at(kv, b) by {
                    assert(src[a] != src[b]) by {
                        if a < b {} else {}
                    }
                    assert(key_at(kv, a) == key_at(old_v, src[a]));
                    assert(key_at(kv, b) == key_at(old_v, src[b]));
                }
            }
            let target = entries_map(old_v).restrict(
                entries_map(old_v).dom().filter(|k: Seq<u8>| is_live(entries_map(old_v)[k], now, ttl)),
            );
            assert forall|k: Seq<u8>| #[trigger] agree_at(entries_map(kv), target, k) by {
                if has_key(kv, k) {
                    let a = choose|a: int| 0 <= a < kv.len() && key_at(kv, a) == k;
                    lemma_lookup(kv, a);
                    lemma_lookup(old_v, src[a]);
                }
                if has_key(old_v, k) {
                    let j = choose|j: int| 0 <= j < old_v.len() && key_at(old_v, j) == k;
                    lemma_lookup(old_v, j);
                    if is_live(old_v[j].1, now, ttl) {
                        let a = choose|a: int| 0 <= a < src.len() && src[a] == j;
                        assert(key_at(kv, a) == k);
                    }
                }
            }
            lemma_map_eq(entries_map(kv), target);
            lemma_map_len(kv);
            lemma_map_len(old_v);
        }
        let removed = self.entries.len() - kept.len();
        self.entries = kept;
        removed
    }
}

/// A token recorded at `t0` validates at `t0` and at every later reading
/// before the time-to-live has elapsed, and at no reading from then on.
pub proof fn lemma_token_lifetime(before: TokenStore, after: TokenStore, token: AuthToken, t0: u64, t: u64)
    requires
        after@ == before@.insert(token@, t0),
        after.ttl() == before.ttl(),
        after.ttl() > 0,
    ensures
        after@.contains_key(token@) && is_live(after@[token@], t0, after.ttl()),
        t0 <= t ==> (is_live(after@[token@], t, after.ttl()) <==> t - t0 < after.ttl()),
{
}

} // verus!
