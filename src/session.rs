//! Bookkeeping of the host's sessions: identifiers, the legacy numeric
//! table, the table keyed by client-chosen session identifiers with each
//! session's recent output lines, and which output receivers were handed out.
//!
//! The pseudo-terminals themselves are held by the caller under the numeric
//! identifiers this table allocates.

use vstd::prelude::*;
use crate::keyed::{
    keyed_map, keyed_ok, lemma_keyed_absent, lemma_keyed_len, lemma_keyed_lookup, lemma_keyed_push,
    lemma_keyed_remove, lemma_keyed_update,
};

verus! {

/// Lines of history kept per session.
pub const HISTORY_LINES: usize = 100;

/// `h` after appending `line`, keeping only the newest lines.
pub open spec fn ring_push(h: Seq<Seq<char>>, line: Seq<char>) -> Seq<Seq<char>> {
    let h2 = h.push(line);
    if h2.len() > HISTORY_LINES {
        h2.subrange(h2.len() - HISTORY_LINES, h2.len() as int)
    } else {
        h2
    }
}

/// What the table records of one session.
pub struct SessionView {
    /// Identifier of the session's pseudo-terminal.
    pub pty_id: u64,
    /// Recent output lines, oldest first.
    pub history: Seq<Seq<char>>,
    /// Project directory the session was opened in.
    pub working_dir: Seq<char>,
    /// Whether the output receiver was handed out.
    pub output_taken: bool,
}

struct UuidSession {
    session_id: String,
    pty_id: u64,
    history: Vec<String>,
    working_dir: String,
    output_taken: bool,
}

impl UuidSession {
    spec fn info(&self) -> SessionView {
        SessionView {
            pty_id: self.pty_id,
            history: self.history@.map_values(|l: String| l@),
            working_dir: self.working_dir@,
            output_taken: self.output_taken,
        }
    }
}

spec fn uuid_keys(v: Seq<UuidSession>) -> Seq<Seq<char>> {
    v.map_values(|s: UuidSession| s.session_id@)
}

spec fn uuid_infos(v: Seq<UuidSession>) -> Seq<SessionView> {
    v.map_values(|s: UuidSession| s.info())
}

spec fn legacy_keys(v: Seq<(u64, bool)>) -> Seq<u64> {
    v.map_values(|e: (u64, bool)| e.0)
}

spec fn legacy_vals(v: Seq<(u64, bool)>) -> Seq<bool> {
    v.map_values(|e: (u64, bool)| e.1)
}

fn contains_id(v: &Vec<u64>, x: u64) -> (r: bool)
    ensures
        r == v@.contains(x),
{
    let mut i: usize = 0;
    while i < v.len()
        invariant
            i <= v@.len(),
            forall|j: int| 0 <= j < i ==> v@[j] != x,
        decreases v@.len() - i,
    {
        if v[i] == x {
            return true;
        }
        i += 1;
    }
    false
}

/// Session tables of one host.
pub struct SessionTable {
    next_id: u64,
    legacy: Vec<(u64, bool)>,
    uuid: Vec<UuidSession>,
}

impl SessionTable {
    /// Sessions by identifier.
    pub closed spec fn sessions(&self) -> Map<Seq<char>, SessionView> {
        keyed_map(uuid_keys(self.uuid@), uuid_infos(self.uuid@))
    }

    /// Session identifiers in the order they were created.
    pub closed spec fn session_ids(&self) -> Seq<Seq<char>> {
        uuid_keys(self.uuid@)
    }

    /// Legacy sessions: identifier to whether the output receiver was handed out.
    pub closed spec fn legacy_sessions(&self) -> Map<u64, bool> {
        keyed_map(legacy_keys(self.legacy@), legacy_vals(self.legacy@))
    }

    /// The next identifier to hand out.
    pub closed spec fn next_id(&self) -> u64 {
        self.next_id
    }

    pub closed spec fn wf(&self) -> bool {
        &&& keyed_ok(uuid_keys(self.uuid@), uuid_infos(self.uuid@))
        &&& keyed_ok(legacy_keys(self.legacy@), legacy_vals(self.legacy@))
        &&& forall|i: int| 0 <= i < self.uuid@.len() ==> #[trigger] self.uuid@[i].history@.len() <= HISTORY_LINES
    }

    /// Empty tables; identifiers start at one.
    pub fn new() -> (t: SessionTable)
        ensures
            t.wf(),
            t.sessions() == Map::<Seq<char>, SessionView>::empty(),
            t.legacy_sessions() == Map::<u64, bool>::empty(),
            t.next_id() == 1,
    {
        let t = SessionTable { next_id: 1, legacy: Vec::new(), uuid: Vec::new() };
        assert(t.sessions() =~= Map::<Seq<char>, SessionView>::empty());
        assert(t.legacy_sessions() =~= Map::<u64, bool>::empty());
        t
    }

    /// Hands out a fresh identifier; identifiers increase and are never
    /// reused. `None` once they are exhausted.
    pub fn allocate_id(&mut self) -> (r: Option<u64>)
        requires
            old(self).wf(),
        ensures
            final(self).wf(),
            final(self).sessions() == old(self).sessions(),
            final(self).legacy_sessions() == old(self).legacy_sessions(),
            old(self).next_id() < u64::MAX ==> r == Some(old(self).next_id()) && final(self).next_id()
                == old(self).next_id() + 1,
            old(self).next_id() == u64::MAX ==> r is None && final(self).next_id() == old(self).next_id(),
    {
        if self.next_id == u64::MAX {
            return None;
        }
        let id = self.next_id;
        self.next_id = id + 1;
        Some(id)
    }

    fn find_legacy(&self, id: u64) -> (r: Option<usize>)
        requires
            self.wf(),
        ensures
            r matches Some(i) ==> i < self.legacy@.len() && legacy_keys(self.legacy@)[i as int] == id,
            r is None ==> !self.legacy_sessions().contains_key(id),
    {
        let mut i: usize = 0;
        while i < self.legacy.len()
            invariant
                i <= self.legacy@.len(),
                forall|j: int| 0 <= j < i ==> legacy_keys(self.legacy@)[j] != id,
            decreases self.legacy@.len() - i,
        {
            if self.legacy[i].0 == id {
                return Some(i);
            }
            i += 1;
        }
        proof {
            lemma_keyed_absent(legacy_keys(self.legacy@), legacy_vals(self.legacy@), id);
        }
        None
    }

    /// Records a legacy session; its output receiver is still held.
    pub fn insert_legacy(&mut self, id: u64)
        requires
            old(self).wf(),
        ensures
            final(self).wf(),
            final(self).legacy_sessions() == old(self).legacy_sessions().insert(id, false),
            final(self).sessions() == old(self).sessions(),
            final(self).next_id() == old(self).next_id(),
    {
        let ghost ks = legacy_keys(self.legacy@);
        let ghost vs = legacy_vals(self.legacy@);
        match self.find_legacy(id) {
            Some(i) => {
                self.legacy.set(i, (id, false));
                proof {
                    lemma_keyed_update(ks, vs, i as int, false);
                    assert(legacy_keys(self.legacy@) =~= ks);
                    assert(legacy_vals(self.legacy@) =~= vs.update(i as int, false));
                }
            },
            None => {
                proof {
                    assert(!ks.contains(id));
                    lemma_keyed_push(ks, vs, id, false);
                }
                self.legacy.push((id, false));
                proof {
                    assert(legacy_keys(self.legacy@) =~= ks.push(id));
                    assert(legacy_vals(self.legacy@) =~= vs.push(false));
                }
            },
        }
    }

    /// Hands out the output receiver of a legacy session once: `true` the
    /// first time for a present session, `false` afterwards.
    pub fn take_legacy_output(&mut self, id: u64) -> (r: bool)
        requires
            old(self).wf(),
        ensures
            final(self).wf(),
            r == (old(self).legacy_sessions().contains_key(id) && !old(self).legacy_sessions()[id]),
            final(self).legacy_sessions() == if r {
                old(self).legacy_sessions().insert(id, true)
            } else {
                old(self).legacy_sessions()
            },
            final(self).sessions() == old(self).sessions(),
            final(self).next_id() == old(self).next_id(),
    {
        let ghost ks = legacy_keys(self.legacy@);
        let ghost vs = legacy_vals(self.legacy@);
        match self.find_legacy(id) {
            Some(i) => {
                proof {
                    lemma_keyed_lookup(ks, vs, i as int);
                }
                if self.legacy[i].1 {
                    false
                } else {
                    self.legacy.set(i, (id, true));
                    proof {
                        lemma_keyed_update(ks, vs, i as int, true);
                        assert(legacy_keys(self.legacy@) =~= ks);
                        assert(legacy_vals(self.legacy@) =~= vs.update(i as int, true));
                    }
                    true
                }
            },
            None => false,
        }
    }

    /// Takes back the output receiver of a legacy session.
    pub fn release_legacy_output(&mut self, id: u64)
        requires
            old(self).wf(),
        ensures
            final(self).wf(),
            final(self).legacy_sessions() == if old(self).legacy_sessions().contains_key(id) {
                old(self).legacy_sessions().insert(id, false)
            } else {
                old(self).legacy_sessions()
            },
            final(self).sessions() == old(self).sessions(),
            final(self).next_id() == old(self).next_id(),
    {
        let ghost ks = legacy_keys(self.legacy@);
        let ghost vs = legacy_vals(self.legacy@);
        match self.find_legacy(id) {
            Some(i) => {
                self.legacy.set(i, (id, false));
                proof {
                    lemma_keyed_update(ks, vs, i as int, false);
                    assert(legacy_keys(self.legacy@) =~= ks);
                    assert(legacy_vals(self.legacy@) =~= vs.update(i as int, false));
                }
            },
            None => {},
        }
    }

    /// Forgets a legacy session; `true` when it was present.
    pub fn remove_legacy(&mut self, id: u64) -> (r: bool)
        requires
            old(self).wf(),
        ensures
            final(self).wf(),
            r == old(self).legacy_sessions().contains_key(id),
            final(self).legacy_sessions() == old(self).legacy_sessions().remove(id),
            final(self).sessions() == old(self).sessions(),
            final(self).next_id() == old(self).next_id(),
    {
        let ghost ks = legacy_keys(self.legacy@);
        let ghost vs = legacy_vals(self.legacy@);
        match self.find_legacy(id) {
            Some(i) => {
                proof {
                    lemma_keyed_lookup(ks, vs, i as int);
                    lemma_keyed_remove(ks, vs, i as int);
                }
                self.legacy.remove(i);
                proof {
                    assert(legacy_keys(self.legacy@) =~= ks.remove(i as int));
                    assert(legacy_vals(self.legacy@) =~= vs.remove(i as int));
                }
                true
            },
            None => {
                assert(self.legacy_sessions() =~= self.legacy_sessions().remove(id));
                false
            },
        }
    }

    /// Number of legacy sessions.
    pub fn legacy_count(&self) -> (n: usize)
        requires
            self.wf(),
        ensures
            n == self.legacy_sessions().len(),
    {
        proof {
            lemma_keyed_len(legacy_keys(self.legacy@), legacy_vals(self.legacy@));
        }
        self.legacy.len()
    }

    /// Legacy session identifiers.
    pub fn legacy_ids(&self) -> (ids: Vec<u64>)
        requires
            self.wf(),
        ensures
            ids@.to_set() == self.legacy_sessions().dom(),
            ids@.len() == self.legacy_sessions().len(),
    {
        let mut ids: Vec<u64> = Vec::new();
        let mut i: usize = 0;
        while i < self.legacy.len()
            invariant
                i <= self.legacy@.len(),
                ids@ =~= legacy_keys(self.legacy@).subrange(0, i as int),
            decreases self.legacy@.len() - i,
        {
            ids.push(self.legacy[i].0);
            i += 1;
        }
        proof {
            let ks = legacy_keys(self.legacy@);
            assert(ks.subrange(0, ks.len() as int) =~= ks);
            assert(self.legacy_sessions().dom() =~= ks.to_set());
            lemma_keyed_len(ks, legacy_vals(self.legacy@));
        }
        ids
    }

    fn find(&self, id: &String) -> (r: Option<usize>)
        requires
            self.wf(),
        ensures
            r matches Some(i) ==> i < self.uuid@.len() && uuid_keys(self.uuid@)[i as int] == id@,
            r is None ==> !self.sessions().contains_key(id@),
    {
        let mut i: usize = 0;
        while i < self.uuid.len()
            invariant
                i <= self.uuid@.len(),
                forall|j: int| 0 <= j < i ==> uuid_keys(self.uuid@)[j] != id@,
            decreases self.uuid@.len() - i,
        {
            if self.uuid[i].session_id == *id {
                return Some(i);
            }
            i += 1;
        }
        proof {
            lemma_keyed_absent(uuid_keys(self.uuid@), uuid_infos(self.uuid@), id@);
        }
        None
    }

    /// Records a session under `session_id` with empty history. A session
    /// already under that identifier is replaced; its terminal's identifier
    /// is returned so that the caller can stop it.
    pub fn insert_session(&mut self, session_id: String, pty_id: u64, working_dir: String) -> (r:
        Option<u64>)
        requires
            old(self).wf(),
        ensures
            final(self).wf(),
            final(self).sessions() == old(self).sessions().insert(
                session_id@,
                SessionView {
                    pty_id,
                    history: Seq::empty(),
                    working_dir: working_dir@,
                    output_taken: false,
                },
            ),
            r == if old(self).sessions().contains_key(session_id@) {
                Some(old(self).sessions()[session_id@].pty_id)
            } else {
                None
            },
            final(self).legacy_sessions() == old(self).legacy_sessions(),
            final(self).next_id() == old(self).next_id(),
    {
        let ghost ks = uuid_keys(self.uuid@);
        let ghost vs = uuid_infos(self.uuid@);
        let ghost key = session_id@;
        let entry = UuidSession { session_id, pty_id, history: Vec::new(), working_dir, output_taken: false };
        let ghost info = entry.info();
        assert(info.history =~= Seq::<Seq<char>>::empty());
        match self.find(&entry.session_id) {
            Some(i) => {
                proof {
                    lemma_keyed_lookup(ks, vs, i as int);
                    lemma_keyed_update(ks, vs, i as int, info);
                }
                let previous = self.uuid[i].pty_id;
                self.uuid.set(i, entry);
                proof {
                    assert(uuid_keys(self.uuid@) =~= ks);
                    assert(uuid_infos(self.uuid@) =~= vs.update(i as int, info));
                }
                Some(previous)
            },
            None => {
                proof {
                    assert(!ks.contains(key));
                    lemma_keyed_push(ks, vs, key, info);
                }
                self.uuid.push(entry);
                proof {
                    assert(uuid_keys(self.uuid@) =~= ks.push(key));
                    assert(uuid_infos(self.uuid@) =~= vs.push(info));
                }
                None
            },
        }
    }

    /// Whether a session is recorded under `session_id`.
    pub fn session_exists(&self, session_id: &String) -> (r: bool)
        requires
            self.wf(),
        ensures
            r == self.sessions().contains_key(session_id@),
    {
        match self.find(session_id) {
            Some(i) => {
                proof {
                    lemma_keyed_lookup(uuid_keys(self.uuid@), uuid_infos(self.uuid@), i as int);
                }
                true
            },
            None => false,
        }
    }

    /// The terminal of a session, when present.
    pub fn pty_of(&self, session_id: &String) -> (r: Option<u64>)
        requires
            self.wf(),
        ensures
            r == if self.sessions().contains_key(session_id@) {
                Some(self.sessions()[session_id@].pty_id)
            } else {
                None
            },
    {
        match self.find(session_id) {
            Some(i) => {
                proof {
                    lemma_keyed_lookup(uuid_keys(self.uuid@), uuid_infos(self.uuid@), i as int);
                }
                Some(self.uuid[i].pty_id)
            },
            None => None,
        }
    }

    /// Copy of a session's history, oldest line first; empty for an
    /// unknown session.
    pub fn get_history(&self, session_id: &String) -> (lines: Vec<String>)
        requires
            self.wf(),
        ensures
            lines@.map_values(|l: String| l@) == if self.sessions().contains_key(session_id@) {
                self.sessions()[session_id@].history
            } else {
                Seq::empty()
            },
    {
        match self.find(session_id) {
            Some(i) => {
                proof {
                    lemma_keyed_lookup(uuid_keys(self.uuid@), uuid_infos(self.uuid@), i as int);
                }
                let h = &self.uuid[i].history;
                let mut out: Vec<String> = Vec::new();
                let mut j: usize = 0;
                while j < h.len()
                    invariant
                        j <= h@.len(),
                        out@.map_values(|l: String| l@) =~= h@.map_values(|l: String| l@).subrange(0, j as int),
                    decreases h@.len() - j,
                {
                    let ghost prev = out@;
                    let line = h[j].clone();
                    out.push(line);
                    proof {
                        assert(out@.map_values(|l: String| l@) =~= prev.map_values(|l: String| l@).push(h@[j as int]@));
                    }
                    j += 1;
                }
                proof {
                    assert(h@.map_values(|l: String| l@).subrange(0, h@.len() as int) =~= h@.map_values(
                        |l: String| l@,
                    ));
                }
                out
            },
            None => {
                let out: Vec<String> = Vec::new();
                assert(out@.map_values(|l: String| l@) =~= Seq::<Seq<char>>::empty());
                out
            },
        }
    }

    /// Appends a line to a session's history, dropping the oldest line
    /// beyond the limit. Unknown sessions are left alone.
    pub fn add_history_line(&mut self, session_id: &String, line: String)
        requires
            old(self).wf(),
        ensures
            final(self).wf(),
            final(self).sessions() == if old(self).sessions().contains_key(session_id@) {
                old(self).sessions().insert(
                    session_id@,
                    SessionView {
                        history: ring_push(old(self).sessions()[session_id@].history, line@),
                        ..old(self).sessions()[session_id@]
                    },
                )
            } else {
                old(self).sessions()
            },
            final(self).legacy_sessions() == old(self).legacy_sessions(),
            final(self).next_id() == old(self).next_id(),
    {
        let ghost ks = uuid_keys(self.uuid@);
        let ghost vs = uuid_infos(self.uuid@);
        match self.find(session_id) {
            Some(i) => {
                proof {
                    lemma_keyed_lookup(ks, vs, i as int);
                }
                let mut entry = self.uuid.remove(i);
                let ghost before = entry.history@.map_values(|l: String| l@);
                entry.history.push(line);
                if entry.history.len() > HISTORY_LINES {
                    entry.history.remove(0);
                }
                proof {
                    let after = entry.history@.map_values(|l: String| l@);
                    let pushed = before.push(line@);
                    if pushed.len() > HISTORY_LINES {
                        assert(after =~= pushed.subrange(pushed.len() - HISTORY_LINES, pushed.len() as int));
                    } else {
                        assert(after =~= pushed);
                    }
                }
                self.uuid.insert(i, entry);
                proof {
                    let info = entry.info();
                    assert(uuid_keys(self.uuid@) =~= ks);
                    assert(uuid_infos(self.uuid@) =~= vs.update(i as int, info));
                    lemma_keyed_update(ks, vs, i as int, info);
                    assert forall|j: int| 0 <= j < self.uuid@.len() implies #[trigger] self.uuid@[j].history@.len()
                        <= HISTORY_LINES by {
                        if j != i {
                            assert(self.uuid@[j] == old(self).uuid@[j]);
                        }
                    }
                }
            },
            None => {},
        }
    }

    /// Hands out a session's output receiver once: its terminal identifier
    /// the first time, `None` afterwards or for an unknown session.
    pub fn take_output(&mut self, session_id: &String) -> (r: Option<u64>)
        requires
            old(self).wf(),
        ensures
            final(self).wf(),
            old(self).sessions().contains_key(session_id@) && !old(self).sessions()[session_id@].output_taken
                ==> r == Some(old(self).sessions()[session_id@].pty_id) && final(self).sessions()
                == old(self).sessions().insert(
                session_id@,
                SessionView { output_taken: true, ..old(self).sessions()[session_id@] },
            ),
            !(old(self).sessions().contains_key(session_id@) && !old(self).sessions()[session_id@].output_taken)
                ==> r is None && final(self).sessions() == old(self).sessions(),
            final(self).legacy_sessions() == old(self).legacy_sessions(),
            final(self).next_id() == old(self).next_id(),
    {
        let ghost ks = uuid_keys(self.uuid@);
        let ghost vs = uuid_infos(self.uuid@);
        match self.find(session_id) {
            Some(i) => {
                proof {
                    lemma_keyed_lookup(ks, vs, i as int);
                }
                if self.uuid[i].output_taken {
                    return None;
                }
                let mut entry = self.uuid.remove(i);
                entry.output_taken = true;
                let pty = entry.pty_id;
                self.uuid.insert(i, entry);
                proof {
                    let info = entry.info();
                    assert(uuid_keys(self.uuid@) =~= ks);
                    assert(uuid_infos(self.uuid@) =~= vs.update(i as int, info));
                    lemma_keyed_update(ks, vs, i as int, info);
                    assert(info == SessionView { output_taken: true, ..vs[i as int] });
                    assert forall|j: int| 0 <= j < self.uuid@.len() implies #[trigger] self.uuid@[j].history@.len()
                        <= HISTORY_LINES by {
                        if j != i {
                            assert(self.uuid@[j] == old(self).uuid@[j]);
                        }
                    }
                }
                Some(pty)
            },
            None => None,
        }
    }

    /// Takes back a session's output receiver, so that it can be handed out
    /// again. Unknown sessions are left alone.
    pub fn release_output(&mut self, session_id: &String)
        requires
            old(self).wf(),
        ensures
            final(self).wf(),
            old(self).sessions().contains_key(session_id@) ==> final(self).sessions() == old(self).sessions().insert(
                session_id@,
                SessionView { output_taken: false, ..old(self).sessions()[session_id@] },
            ),
            !old(self).sessions().contains_key(session_id@) ==> final(self).sessions() == old(self).sessions(),
            final(self).legacy_sessions() == old(self).legacy_sessions(),
            final(self).next_id() == old(self).next_id(),
    {
        let ghost ks = uuid_keys(self.uuid@);
        let ghost vs = uuid_infos(self.uuid@);
        match self.find(session_id) {
            Some(i) => {
                proof {
                    lemma_keyed_lookup(ks, vs, i as int);
                }
                let mut entry = self.uuid.remove(i);
                entry.output_taken = false;
                self.uuid.insert(i, entry);
                proof {
                    let info = entry.info();
                    assert(uuid_keys(self.uuid@) =~= ks);
                    assert(uuid_infos(self.uuid@) =~= vs.update(i as int, info));
                    lemma_keyed_update(ks, vs, i as int, info);
                    assert(info == SessionView { output_taken: false, ..vs[i as int] });
                    assert forall|j: int| 0 <= j < self.uuid@.len() implies #[trigger] self.uuid@[j].history@.len()
                        <= HISTORY_LINES by {
                        if j != i {
                            assert(self.uuid@[j] == old(self).uuid@[j]);
                        }
                    }
                }
            },
            None => {},
        }
    }

    /// Forgets a session; returns its terminal's identifier when present.
    pub fn remove_session(&mut self, session_id: &String) -> (r: Option<u64>)
        requires
            old(self).wf(),
        ensures
            final(self).wf(),
            r == if old(self).sessions().contains_key(session_id@) {
                Some(old(self).sessions()[session_id@].pty_id)
            } else {
                None
            },
            final(self).sessions() == old(self).sessions().remove(session_id@),
            final(self).legacy_sessions() == old(self).legacy_sessions(),
            final(self).next_id() == old(self).next_id(),
    {
        let ghost ks = uuid_keys(self.uuid@);
        let ghost vs = uuid_infos(self.uuid@);
        match self.find(session_id) {
            Some(i) => {
                proof {
                    lemma_keyed_lookup(ks, vs, i as int);
                    lemma_keyed_remove(ks, vs, i as int);
                }
                let entry = self.uuid.remove(i);
                proof {
                    assert(uuid_keys(self.uuid@) =~= ks.remove(i as int));
                    assert(uuid_infos(self.uuid@) =~= vs.remove(i as int));
                    assert forall|j: int| 0 <= j < self.uuid@.len() implies #[trigger] self.uuid@[j].history@.len()
                        <= HISTORY_LINES by {
                        if j < i {
                            assert(self.uuid@[j] == old(self).uuid@[j]);
                        } else {
                            assert(self.uuid@[j] == old(self).uuid@[j + 1]);
                        }
                    }
                }
                Some(entry.pty_id)
            },
            None => {
                assert(self.sessions() =~= self.sessions().remove(session_id@));
                None
            },
        }
    }

    /// Session identifiers, in creation order.
    pub fn list_sessions(&self) -> (ids: Vec<String>)
        requires
            self.wf(),
        ensures
            ids@.map_values(|s: String| s@) == self.session_ids(),
            self.session_ids().to_set() == self.sessions().dom(),
    {
        let mut ids: Vec<String> = Vec::new();
        let mut i: usize = 0;
        while i < self.uuid.len()
            invariant
                i <= self.uuid@.len(),
                ids@.map_values(|s: String| s@) =~= uuid_keys(self.uuid@).subrange(0, i as int),
            decreases self.uuid@.len() - i,
        {
            let ghost prev = ids@;
            let sid = self.uuid[i].session_id.clone();
            ids.push(sid);
            proof {
                assert(ids@.map_values(|s: String| s@) =~= prev.map_values(|s: String| s@).push(self.uuid@[i as int].session_id@));
            }
            i += 1;
        }
        proof {
            let ks = uuid_keys(self.uuid@);
            assert(ks.subrange(0, ks.len() as int) =~= ks);
            assert(self.sessions().dom() =~= ks.to_set());
        }
        ids
    }

    /// Number of sessions.
    pub fn session_count(&self) -> (n: usize)
        requires
            self.wf(),
        ensures
            n == self.sessions().len(),
    {
        proof {
            lemma_keyed_len(uuid_keys(self.uuid@), uuid_infos(self.uuid@));
        }
        self.uuid.len()
    }

    /// Drops every session whose terminal is listed in `dead`, legacy and
    /// identified ones alike, and returns the terminals dropped.
    pub fn remove_dead(&mut self, dead: &Vec<u64>) -> (gone: Vec<u64>)
        requires
            old(self).wf(),
        ensures
            final(self).wf(),
            final(self).next_id() == old(self).next_id(),
            forall|k: Seq<char>| #[trigger] final(self).sessions().contains_key(k) <==> old(self).sessions().contains_key(k)
                && !dead@.contains(old(self).sessions()[k].pty_id),
            forall|k: Seq<char>| #[trigger] final(self).sessions().contains_key(k) ==> final(self).sessions()[k]
                == old(self).sessions()[k],
            forall|id: u64| #[trigger] final(self).legacy_sessions().contains_key(id) <==> old(self).legacy_sessions().contains_key(id)
                && !dead@.contains(id),
            forall|id: u64| #[trigger] final(self).legacy_sessions().contains_key(id) ==> final(self).legacy_sessions()[id]
                == old(self).legacy_sessions()[id],
            forall|p: u64| gone@.contains(p) ==> dead@.contains(p),
    {
        let mut gone: Vec<u64> = Vec::new();
        let ghost orig = self.sessions();
        let mut i: usize = 0;
        while i < self.uuid.len()
            invariant
                self.wf(),
                self.next_id == old(self).next_id,
                self.legacy@ == old(self).legacy@,
                orig == old(self).sessions(),
                i <= self.uuid@.len(),
                forall|j: int| 0 <= j < i ==> !dead@.contains(#[trigger] uuid_infos(self.uuid@)[j].pty_id),
                forall|k: Seq<char>| #[trigger] self.sessions().contains_key(k) ==> orig.contains_key(k)
                    && self.sessions()[k] == orig[k],
                forall|k: Seq<char>| orig.contains_key(k) && !dead@.contains(orig[k].pty_id)
                    ==> #[trigger] self.sessions().contains_key(k),
                forall|p: u64| gone@.contains(p) ==> dead@.contains(p),
            decreases self.uuid@.len() - i,
        {
            let ghost ks = uuid_keys(self.uuid@);
            let ghost vs = uuid_infos(self.uuid@);
            let ghost cur_map = self.sessions();
            assert(cur_map == keyed_map(ks, vs));
            let p = self.uuid[i].pty_id;
            if contains_id(dead, p) {
                proof {
                    lemma_keyed_lookup(ks, vs, i as int);
                    lemma_keyed_remove(ks, vs, i as int);
                }
                let ghost before = self.uuid@;
                let entry = self.uuid.remove(i);
                gone.push(entry.pty_id);
                proof {
                    assert(uuid_keys(self.uuid@) =~= ks.remove(i as int));
                    assert(uuid_infos(self.uuid@) =~= vs.remove(i as int));
                    assert forall|j: int| 0 <= j < self.uuid@.len() implies #[trigger] self.uuid@[j].history@.len()
                        <= HISTORY_LINES by {
                        if j >= i {
                            assert(self.uuid@[j] == before[j + 1]);
                        } else {
                            assert(self.uuid@[j] == before[j]);
                        }
                    }
                    assert forall|j: int| 0 <= j < i implies !dead@.contains(#[trigger] uuid_infos(self.uuid@)[j].pty_id) by {
                        assert(uuid_infos(self.uuid@)[j] == vs[j]);
                    }
                    let gone_key = ks[i as int];
                    assert(self.sessions() == keyed_map(ks, vs).remove(gone_key));
                    assert(vs[i as int].pty_id == p);
                    assert forall|k: Seq<char>| #[trigger] self.sessions().contains_key(k) implies orig.contains_key(k)
                        && self.sessions()[k] == orig[k] by {
                        assert(cur_map.contains_key(k));
                    }
                    assert forall|k: Seq<char>| orig.contains_key(k) && !dead@.contains(orig[k].pty_id)
                        implies #[trigger] self.sessions().contains_key(k) by {
                        assert(cur_map.contains_key(k));
                        if k == gone_key {
                            assert(keyed_map(ks, vs)[k] == vs[i as int]);
                        }
                    }
                }
            } else {
                i += 1;
            }
        }
        proof {
            assert forall|k: Seq<char>| #[trigger] self.sessions().contains_key(k) implies !dead@.contains(
                orig[k].pty_id,
            ) by {
                let ks = uuid_keys(self.uuid@);
                let j = choose|j: int| 0 <= j < ks.len() && ks[j] == k;
                lemma_keyed_lookup(ks, uuid_infos(self.uuid@), j);
            }
        }
        let ghost lorig = self.legacy_sessions();
        let ghost u_after = self.uuid@;
        let mut i: usize = 0;
        while i < self.legacy.len()
            invariant
                self.wf(),
                self.next_id == old(self).next_id,
                forall|k: Seq<char>| #[trigger] self.sessions().contains_key(k) <==> old(self).sessions().contains_key(k)
                    && !dead@.contains(old(self).sessions()[k].pty_id),
                forall|k: Seq<char>| #[trigger] self.sessions().contains_key(k) ==> self.sessions()[k]
                    == old(self).sessions()[k],
                lorig == old(self).legacy_sessions(),
                self.uuid@ == u_after,
                i <= self.legacy@.len(),
                forall|j: int| 0 <= j < i ==> !dead@.contains(#[trigger] legacy_keys(self.legacy@)[j]),
                forall|k: u64| #[trigger] self.legacy_sessions().contains_key(k) ==> lorig.contains_key(k)
                    && self.legacy_sessions()[k] == lorig[k],
                forall|k: u64| lorig.contains_key(k) && !dead@.contains(k) ==> #[trigger] self.legacy_sessions().contains_key(k),
                forall|p: u64| gone@.contains(p) ==> dead@.contains(p),
            decreases self.legacy@.len() - i,
        {
            let ghost ks = legacy_keys(self.legacy@);
            let ghost vs = legacy_vals(self.legacy@);
            let ghost cur_map = self.legacy_sessions();
            let ghost sess_before = self.sessions();
            assert(cur_map == keyed_map(ks, vs));
            let id = self.legacy[i].0;
            if contains_id(dead, id) {
                proof {
                    lemma_keyed_lookup(ks, vs, i as int);
                    lemma_keyed_remove(ks, vs, i as int);
                }
                self.legacy.remove(i);
                gone.push(id);
                proof {
                    assert(legacy_keys(self.legacy@) =~= ks.remove(i as int));
                    assert(legacy_vals(self.legacy@) =~= vs.remove(i as int));
                    assert forall|j: int| 0 <= j < i implies !dead@.contains(#[trigger] legacy_keys(self.legacy@)[j]) by {
                        assert(legacy_keys(self.legacy@)[j] == ks[j]);
                    }
                    assert(self.legacy_sessions() == keyed_map(ks, vs).remove(id));
                    assert forall|k: u64| #[trigger] self.legacy_sessions().contains_key(k) implies lorig.contains_key(k)
                        && self.legacy_sessions()[k] == lorig[k] by {
                        assert(cur_map.contains_key(k));
                    }
                    assert forall|k: u64| lorig.contains_key(k) && !dead@.contains(k)
                        implies #[trigger] self.legacy_sessions().contains_key(k) by {
                        assert(cur_map.contains_key(k));
                    }
                }
            } else {
                i += 1;
            }
            assert(self.sessions() == sess_before);
        }
        proof {
            assert forall|k: u64| #[trigger] self.legacy_sessions().contains_key(k) implies !dead@.contains(k) by {
                let ks = legacy_keys(self.legacy@);
                let j = choose|j: int| 0 <= j < ks.len() && ks[j] == k;
            }
        }
        gone
    }
}

} // verus!
