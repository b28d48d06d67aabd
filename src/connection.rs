//! The per-stream connection state machine.
//!
//! The caller reads frames, decodes each into a [`NetworkMessage`], hands it
//! to [`Connection::on_message`], and performs the returned actions in order.
//! Where an action's outcome matters (a terminal was spawned, a session was
//! created or closed) the caller reports it back through the matching
//! `on_*` method, which returns the next actions.

use vstd::prelude::*;
use crate::config::TerminalConfig;
use crate::ratelimit::{records_failure, RateLimiterStore};
use crate::session::SessionTable;
use crate::text::{decimal, join, join_strings, push_str, u64_to_decimal};
use crate::token_store::{is_live, TokenStore};
use crate::types::{NetworkMessage, SessionMessage, TerminalEvent};
use crate::{APP_VERSION_STRING, PROTOCOL_VERSION};
use vstd::utf8::encode_utf8;

verus! {

/// The session a pump or an input is bound to.
#[derive(Debug, Clone, PartialEq, Eq)]
pub enum SessionKey {
    /// A session of a single-session client, by number.
    Legacy(u64),
    /// A session of a multi-session client, by its identifier.
    Uuid(String),
}

impl SessionKey {
    /// A copy of the key.
    pub fn duplicate(&self) -> (k: SessionKey)
        ensures
            k == *self,
    {
        match self {
            SessionKey::Legacy(id) => SessionKey::Legacy(*id),
            SessionKey::Uuid(s) => SessionKey::Uuid(s.clone()),
        }
    }
}

/// How a pump frames terminal output.
#[derive(Debug, Clone, Copy, PartialEq, Eq)]
pub enum PumpKind {
    /// One `Event(Output)` per chunk read.
    Basic,
    /// `Event(Output)` batched with the interactive settings.
    Interactive,
    /// `TaggedOutput` per chunk, lines copied to the session history.
    Tagged,
}

/// Work for the caller, in order.
#[derive(Debug, Clone)]
pub enum Action {
    /// Encode and write a message on the stream.
    Send(NetworkMessage),
    /// Spawn a legacy session; report with `on_legacy_spawned`.
    SpawnLegacy(TerminalConfig),
    /// Allocate the explicitly requested terminal; report with `on_pty_allocated`.
    AllocatePty(TerminalConfig),
    /// Check the project path and spawn a session; report with `on_session_created`.
    CreateSession { session_id: String, project_path: String, config: TerminalConfig },
    /// Close a session; report with `on_session_closed`.
    CloseSession { session_id: String },
    WriteLegacy { id: u64, data: Vec<u8> },
    WriteSession { session_id: String, data: Vec<u8> },
    ResizeLegacy { id: u64, rows: u16, cols: u16 },
    ResizeSession { session_id: String, rows: u16, cols: u16 },
    /// Start the connection's output pump.
    StartPump { target: SessionKey, kind: PumpKind },
    /// Cancel the connection's output pump, letting it drain briefly.
    StopPump,
    /// Kill and forget a legacy session.
    CloseLegacy { id: u64 },
    ListDir { path: String },
    WatchDir { path: String, watcher_id: String },
    UnwatchDir { watcher_id: String },
    ReadFile { path: String, max_size: usize },
    /// Stop reading; the stream task ends.
    Finish,
}

/// Outcome of a `CreateSession` action.
#[derive(Debug, Clone)]
pub enum CreateOutcome {
    Created,
    PathMissing,
    Failed(String),
}

/// Whether the pump slot is taken after `t`, given it was `slot` before;
/// `None` when a pump would start while another runs.
pub open spec fn pump_step(slot: bool, a: Action) -> Option<bool> {
    match a {
        Action::StartPump { .. } => if slot {
            None
        } else {
            Some(true)
        },
        Action::StopPump => Some(false),
        _ => Some(slot),
    }
}

/// The pump slot after a run of actions; `None` when at some point a pump
/// would start while another one runs.
pub open spec fn pump_steps(slot: bool, acts: Seq<Action>) -> Option<bool>
    decreases acts.len(),
{
    if acts.len() == 0 {
        Some(slot)
    } else {
        match pump_steps(slot, acts.drop_last()) {
            None => None,
            Some(t) => pump_step(t, acts.last()),
        }
    }
}

proof fn lemma_steps_push(slot: bool, acts: Seq<Action>, a: Action)
    ensures
        pump_steps(slot, acts.push(a)) == match pump_steps(slot, acts) {
            None => None,
            Some(t) => pump_step(t, a),
        },
{
    assert(acts.push(a).drop_last() =~= acts);
}

proof fn lemma_one_action(slot: bool, acts: Seq<Action>)
    requires
        acts.len() == 1,
    ensures
        pump_steps(slot, acts) == pump_step(slot, acts[0]),
{
    lemma_steps_push(slot, Seq::empty(), acts[0]);
    assert(Seq::<Action>::empty().push(acts[0]) =~= acts);
}

/// Action runs of successive calls, put end to end, still never start a
/// pump while another one runs: over a whole stream at most one output
/// pump is active at a time.
pub proof fn lemma_pump_runs_compose(slot: bool, a: Seq<Action>, b: Seq<Action>, mid: bool, end: bool)
    requires
        pump_steps(slot, a) == Some(mid),
        pump_steps(mid, b) == Some(end),
    ensures
        pump_steps(slot, a + b) == Some(end),
    decreases b.len(),
{
    if b.len() == 0 {
        assert(a + b =~= a);
    } else {
        let t = match pump_steps(mid, b.drop_last()) {
            Some(t) => t,
            None => false,
        };
        assert(pump_steps(mid, b.drop_last()) is Some);
        lemma_pump_runs_compose(slot, a, b.drop_last(), mid, t);
        assert((a + b).drop_last() =~= a + b.drop_last());
        assert((a + b).last() == b.last());
    }
}

/// Text answering `ListSessions`.
pub open spec fn listing_text(ids: Seq<Seq<char>>) -> Seq<char> {
    "Active sessions:\n"@ + join(ids, "\n"@)
}

/// The actions that end a stream: the pump is stopped, the sessions the
/// stream owns (its legacy session, its active session) are closed.
pub open spec fn shutdown_actions(pump_on: bool, legacy: Option<u64>, active: Option<String>) -> Seq<Action> {
    (if pump_on {
        seq![Action::StopPump]
    } else {
        seq![]
    }) + (match legacy {
        Some(id) => seq![Action::CloseLegacy { id }],
        None => seq![],
    }) + (match active {
        Some(session_id) => seq![Action::CloseSession { session_id }],
        None => seq![],
    }) + seq![Action::Finish]
}

/// The handshake reply: this protocol and application version, no
/// capabilities, no token.
pub open spec fn is_server_hello(a: Action) -> bool {
    a matches Action::Send(NetworkMessage::Hello { protocol_version, app_version, capabilities, auth_token })
        && protocol_version == PROTOCOL_VERSION && app_version@ == APP_VERSION_STRING@ && capabilities == 0
        && auth_token is None
}

/// Where input bytes go: to the active session, else to the legacy session
/// once its shell runs, else into a newly spawned legacy terminal (implicit
/// mode only; input arriving while it spawns is queued).
pub open spec fn input_outcome(before: Connection, after: Connection, data: Seq<u8>, acts: Seq<Action>) -> bool {
    if before.active() is Some {
        acts.len() == 1 && (acts[0] matches Action::WriteSession { session_id, data: d } && session_id
            == before.active()->0 && d@ == data)
    } else if before.legacy() is Some {
        if !before.explicit() || before.shell_started() {
            acts.len() == 1 && (acts[0] matches Action::WriteLegacy { id, data: d } && id == before.legacy()->0
                && d@ == data)
        } else {
            acts.len() == 0
        }
    } else if before.explicit() {
        acts.len() == 0
    } else if before.awaiting_spawn() {
        acts.len() == 0 && after.awaiting_spawn() && after.pending_input() == before.pending_input() + data
    } else {
        &&& acts.len() == 1
        &&& acts[0] matches Action::SpawnLegacy(c) && c.shell@ == before.shell() && c.env@.len() == 4
            && c.env@[0].0@ == "TERM"@ && size_env(c.env@.subrange(1, 4), c.rows, c.cols)
            && (before.pending_resize() matches Some((r, k)) ==> c.rows == r && c.cols == k)
        &&& after.awaiting_spawn()
        &&& after.pending_input() == data
    }
}

/// Where a resize goes: like input, except that without any session the
/// size is kept for the terminal to come (implicit mode only).
pub open spec fn resize_outcome(before: Connection, after: Connection, rows: u16, cols: u16, acts: Seq<Action>) -> bool {
    if before.active() is Some {
        acts == seq![Action::ResizeSession { session_id: before.active()->0, rows, cols }]
    } else if before.legacy() is Some {
        if !before.explicit() || before.shell_started() {
            acts == seq![Action::ResizeLegacy { id: before.legacy()->0, rows, cols }]
        } else {
            acts.len() == 0
        }
    } else if before.explicit() {
        acts.len() == 0 && after.pending_resize() == before.pending_resize()
    } else {
        acts.len() == 0 && after.pending_resize() == Some((rows, cols))
    }
}

/// `StartShell` on the allocated terminal starts the interactive pump, once.
pub open spec fn start_shell_outcome(before: Connection, after: Connection, acts: Seq<Action>) -> bool {
    if before.pty_requested() && !before.shell_started() && before.legacy() is Some {
        &&& acts == (if before.pump() is Some {
            seq![Action::StopPump]
        } else {
            seq![]
        }) + seq![Action::StartPump { target: SessionKey::Legacy(before.legacy()->0), kind: PumpKind::Interactive }]
        &&& after.pump() == Some(SessionKey::Legacy(before.legacy()->0))
        &&& after.shell_started()
    } else {
        acts.len() == 0 && after.pump() == before.pump()
    }
}

/// `COLUMNS` and `LINES` matching the terminal size, then the variable
/// that hides the shell's incomplete-line marker.
pub open spec fn size_env(env: Seq<(String, String)>, rows: u16, cols: u16) -> bool {
    &&& env.len() == 3
    &&& env[0].0@ == "COLUMNS"@ && env[0].1@ == decimal(cols as nat)
    &&& env[1].0@ == "LINES"@ && env[1].1@ == decimal(rows as nat)
    &&& env[2].0@ == "PROMPT_EOL_MARK"@ && env[2].1@.len() == 0
}

/// `config` with the size variables appended to its environment.
fn with_size_env(config: TerminalConfig) -> (c: TerminalConfig)
    ensures
        c.rows == config.rows,
        c.cols == config.cols,
        c.shell == config.shell,
        c.env@.len() == config.env@.len() + 3,
        c.env@.subrange(0, config.env@.len() as int) == config.env@,
        size_env(c.env@.subrange(config.env@.len() as int, c.env@.len() as int), c.rows, c.cols),
{
    let mut c = config;
    let ghost before = c.env@;
    c.env.push((String::from_str("COLUMNS"), u64_to_decimal(c.cols as u64)));
    c.env.push((String::from_str("LINES"), u64_to_decimal(c.rows as u64)));
    c.env.push((String::from_str("PROMPT_EOL_MARK"), String::new()));
    assert(c.env@.subrange(0, before.len() as int) =~= before);
    c
}

/// State of one bidirectional stream.
pub struct Connection {
    explicit: bool,
    default_shell: String,
    authenticated: bool,
    finished: bool,
    pending_resize: Option<(u16, u16)>,
    legacy: Option<u64>,
    pty_requested: bool,
    shell_started: bool,
    spawning: bool,
    pending_input: Vec<u8>,
    active: Option<String>,
    pump: Option<SessionKey>,
}

impl Connection {
    pub closed spec fn authenticated(&self) -> bool {
        self.authenticated
    }

    /// The stream has ended; no further message is handled.
    pub closed spec fn finished(&self) -> bool {
        self.finished
    }

    /// The session the output pump serves, when one runs.
    pub closed spec fn pump(&self) -> Option<SessionKey> {
        self.pump
    }

    /// The session that input and resizes go to in multi-session mode.
    pub closed spec fn active(&self) -> Option<String> {
        self.active
    }

    /// The legacy session this stream owns.
    pub closed spec fn legacy(&self) -> Option<u64> {
        self.legacy
    }

    pub closed spec fn pending_resize(&self) -> Option<(u16, u16)> {
        self.pending_resize
    }

    /// Input received while the legacy terminal is being spawned.
    pub closed spec fn pending_input(&self) -> Seq<u8> {
        self.pending_input@
    }

    /// A terminal was requested with `RequestPty`.
    pub closed spec fn pty_requested(&self) -> bool {
        self.pty_requested
    }

    /// The explicitly allocated terminal runs its shell.
    pub closed spec fn shell_started(&self) -> bool {
        self.shell_started
    }

    /// A legacy terminal was requested and its outcome not yet reported.
    pub closed spec fn awaiting_spawn(&self) -> bool {
        self.authenticated && !self.finished && self.legacy is None && self.spawning
    }

    /// Shell that new terminals run.
    pub closed spec fn shell(&self) -> Seq<char> {
        self.default_shell@
    }

    /// Explicit mode: a terminal is made only by `RequestPty` then `StartShell`.
    pub closed spec fn explicit(&self) -> bool {
        self.explicit
    }

    /// Nothing session-related exists before authentication.
    pub closed spec fn wf(&self) -> bool {
        !self.authenticated ==> {
            &&& self.pump is None
            &&& self.legacy is None
            &&& self.active is None
            &&& !self.spawning
            &&& !self.pty_requested
        }
    }

    /// A fresh stream awaiting `Hello`. In explicit mode terminals are made
    /// only through `RequestPty` and `StartShell`; otherwise the first input
    /// spawns one. `default_shell` is the shell new terminals run.
    pub fn new(explicit: bool, default_shell: String) -> (c: Connection)
        ensures
            c.wf(),
            !c.authenticated(),
            !c.finished(),
            c.pump() is None,
            c.active() is None,
            c.legacy() is None,
            c.pending_resize() is None,
            c.explicit() == explicit,
    {
        Connection {
            explicit,
            default_shell,
            authenticated: false,
            finished: false,
            pending_resize: None,
            legacy: None,
            pty_requested: false,
            shell_started: false,
            spawning: false,
            pending_input: Vec::new(),
            active: None,
            pump: None,
        }
    }

    fn shutdown(&mut self, acts: &mut Vec<Action>)
        ensures
            final(acts)@ == old(acts)@ + shutdown_actions(old(self).pump is Some, old(self).legacy, old(self).active),
            final(self).finished,
            final(self).pump is None,
            final(self).legacy is None,
            final(self).active is None,
            final(self).authenticated == old(self).authenticated,
            final(self).explicit == old(self).explicit,
            final(self).pending_resize == old(self).pending_resize,
            final(self).spawning == old(self).spawning,
            final(self).pty_requested == old(self).pty_requested,
            forall|s: bool| #![auto] pump_steps(s, old(acts)@) == Some(old(self).pump is Some)
                ==> pump_steps(s, final(acts)@) == Some(false),
    {
        let ghost a0 = acts@;
        if self.pump.is_some() {
            acts.push(Action::StopPump);
            self.pump = None;
        }
        let ghost a1 = acts@;
        match self.legacy {
            Some(id) => {
                acts.push(Action::CloseLegacy { id });
            },
            None => {},
        }
        let ghost a2 = acts@;
        self.legacy = None;
        match &self.active {
            Some(a) => {
                acts.push(Action::CloseSession { session_id: a.clone() });
            },
            None => {},
        }
        let ghost a3 = acts@;
        self.active = None;
        acts.push(Action::Finish);
        self.finished = true;
        proof {
            assert forall|s: bool| #![auto] pump_steps(s, a0) == Some(old(self).pump is Some) implies pump_steps(
                s,
                acts@,
            ) == Some(false) by {
                if old(self).pump is Some {
                    lemma_steps_push(s, a0, Action::StopPump);
                }
                if old(self).legacy is Some {
                    lemma_steps_push(s, a1, Action::CloseLegacy { id: old(self).legacy->0 });
                }
                if old(self).active is Some {
                    lemma_steps_push(s, a2, Action::CloseSession { session_id: old(self).active->0 });
                }
                lemma_steps_push(s, a3, Action::Finish);
            }
            assert(acts@ =~= a0 + shutdown_actions(old(self).pump is Some, old(self).legacy, old(self).active));
        }
    }

    fn start_pump(&mut self, acts: &mut Vec<Action>, target: SessionKey, kind: PumpKind)
        ensures
            final(acts)@ == old(acts)@ + (if old(self).pump is Some {
                seq![Action::StopPump]
            } else {
                seq![]
            }) + seq![Action::StartPump { target, kind }],
            final(self).pump == Some(target),
            final(self).finished == old(self).finished,
            final(self).authenticated == old(self).authenticated,
            final(self).active == old(self).active,
            final(self).legacy == old(self).legacy,
            final(self).explicit == old(self).explicit,
            final(self).pending_resize == old(self).pending_resize,
            final(self).spawning == old(self).spawning,
            final(self).pty_requested == old(self).pty_requested,
            final(self).shell_started == old(self).shell_started,
            final(self).pending_input == old(self).pending_input,
            final(self).default_shell == old(self).default_shell,
            forall|s: bool| #![auto] pump_steps(s, old(acts)@) == Some(old(self).pump is Some)
                ==> pump_steps(s, final(acts)@) == Some(true),
    {
        let ghost a0 = acts@;
        if self.pump.is_some() {
            acts.push(Action::StopPump);
        }
        let ghost a1 = acts@;
        let ghost t = target;
        let kept = target.duplicate();
        acts.push(Action::StartPump { target, kind });
        self.pump = Some(kept);
        proof {
            assert forall|s: bool| #![auto] pump_steps(s, a0) == Some(old(self).pump is Some) implies pump_steps(
                s,
                acts@,
            ) == Some(true) by {
                if old(self).pump is Some {
                    lemma_steps_push(s, a0, Action::StopPump);
                }
                lemma_steps_push(s, a1, Action::StartPump { target: t, kind });
            }
            if old(self).pump is Some {
                assert(acts@ =~= a0 + seq![Action::StopPump] + seq![Action::StartPump { target: t, kind }]);
            } else {
                assert(acts@ =~= a0 + Seq::<Action>::empty() + seq![Action::StartPump { target: t, kind }]);
            }
        }
    }

    /// Terminal settings for a new session: the default shell, the announced
    /// size (24 by 80 when none was), and the size variables.
    fn sized_config(&self) -> (c: TerminalConfig)
        ensures
            c.shell@ == self.default_shell@,
            self.pending_resize matches Some((r, k)) ==> c.rows == r && c.cols == k,
            self.pending_resize is None ==> c.rows == 24 && c.cols == 80,
            c.env@.len() == 4,
            c.env@[0].0@ == "TERM"@,
            size_env(c.env@.subrange(1, 4), c.rows, c.cols),
    {
        let base = TerminalConfig::default();
        let mut c = base.with_shell(self.default_shell.clone());
        match self.pending_resize {
            Some((rows, cols)) => {
                c.rows = rows;
                c.cols = cols;
            },
            None => {},
        }
        let c = with_size_env(c);
        assert(c.env@.subrange(1, 4) =~= c.env@.subrange(c.env@.len() - 3, c.env@.len() as int));
        c
    }

    /// Handles one decoded message from the client.
    ///
    /// Before authentication only `Hello` is accepted; anything else ends
    /// the stream. `Hello` of another protocol version, without a token, or
    /// with a token that does not validate at `now` is answered with a
    /// placeholder `Hello` and ends the stream; a missing or invalid token
    /// counts as a failure of `peer`, a valid one clears its failures.
    #[verifier::rlimit(60)]
    pub fn on_message(
        &mut self,
        msg: NetworkMessage,
        tokens: &mut TokenStore,
        limiter: &mut RateLimiterStore,
        sessions: &SessionTable,
        peer: u128,
        now: u64,
    ) -> (acts: Vec<Action>)
        requires
            old(self).wf(),
            old(tokens).wf(),
            sessions.wf(),
        ensures
            final(self).wf(),
            final(tokens).wf(),
            final(self).explicit() == old(self).explicit(),
            pump_steps(old(self).pump() is Some, acts@) == Some(final(self).pump() is Some),
            old(self).finished() ==> acts@.len() == 0 && final(self).finished(),
            !(msg is Hello) ==> final(tokens)@ == old(tokens)@ && final(limiter).failures()
                == old(limiter).failures() && final(limiter).banned() == old(limiter).banned(),
            !old(self).finished() && !old(self).authenticated() && !(msg is Hello) ==> acts@ == seq![
                Action::Finish,
            ] && final(self).finished() && !final(self).authenticated(),
            !old(self).finished() ==> (msg matches NetworkMessage::Hello { protocol_version, .. }
                && protocol_version != PROTOCOL_VERSION ==> final(self).finished() && final(tokens)@
                == old(tokens)@ && final(limiter).failures() == old(limiter).failures()
                && final(limiter).banned() == old(limiter).banned()),
            !old(self).finished() ==> (msg matches NetworkMessage::Hello { protocol_version, auth_token, .. }
                && protocol_version == PROTOCOL_VERSION && auth_token is None ==> final(self).finished()
                && records_failure(old(limiter).failures(), old(limiter).banned(), final(limiter).failures(), final(limiter).banned(), peer)),
            !old(self).finished() ==> (msg matches NetworkMessage::Hello { protocol_version, auth_token: Some(t), .. }
                ==> (protocol_version == PROTOCOL_VERSION ==> {
                let valid = old(tokens)@.contains_key(t@) && is_live(old(tokens)@[t@], now, old(tokens).ttl());
                &&& (valid ==> final(self).authenticated() && !final(self).finished()
                    && final(limiter).failures() == old(limiter).failures().remove(peer)
                    && final(limiter).banned() == old(limiter).banned())
                &&& (!valid ==> final(self).finished() && records_failure(old(limiter).failures(), old(limiter).banned(), final(limiter).failures(), final(limiter).banned(), peer))
            })),
            !old(self).finished() && msg is Hello ==> acts@.len() >= 1 && is_server_hello(acts@[0]) && (
            final(self).finished() ==> acts@.subrange(1, acts@.len() as int) == shutdown_actions(
                old(self).pump() is Some,
                old(self).legacy(),
                old(self).active(),
            )) && (!final(self).finished() ==> acts@.len() == 1),
            !old(self).finished() && old(self).authenticated() ==> (msg matches NetworkMessage::Ping { timestamp }
                ==> acts@ == seq![Action::Send(NetworkMessage::Pong { timestamp })]),
            !old(self).finished() && old(self).authenticated() && msg is Close ==> acts@ == shutdown_actions(
                old(self).pump() is Some,
                old(self).legacy(),
                old(self).active(),
            ) && final(self).finished(),
            !old(self).finished() && old(self).authenticated() ==> (msg matches NetworkMessage::Input { data }
                ==> input_outcome(*old(self), *final(self), data@, acts@)),
            !old(self).finished() && old(self).authenticated() ==> (msg matches NetworkMessage::Command(cmd)
                ==> input_outcome(*old(self), *final(self), encode_utf8(cmd.text@), acts@)),
            !old(self).finished() && old(self).authenticated() && msg is StartShell ==> start_shell_outcome(
                *old(self),
                *final(self),
                acts@,
            ),
            !old(self).finished() && old(self).authenticated() ==> (msg matches NetworkMessage::RequestPty { rows, cols, .. }
                ==> (!old(self).pty_requested() && old(self).legacy() is None && !old(self).awaiting_spawn()
                ==> acts@.len() == 1 && (acts@[0] matches Action::AllocatePty(c) && c.rows == rows && c.cols == cols
                && c.env@.len() >= 4 && c.env@[0].0@ == "TERM"@ && size_env(
                c.env@.subrange(c.env@.len() - 3, c.env@.len() as int),
                rows,
                cols,
            )))),
            !old(self).finished() && old(self).authenticated() ==> (msg is RequestPty && old(self).pty_requested()
                ==> acts@.len() == 0),
            !old(self).finished() && old(self).authenticated() ==> (msg matches NetworkMessage::Resize { rows, cols }
                ==> resize_outcome(*old(self), *final(self), rows, cols, acts@)),
            !old(self).finished() && old(self).authenticated() ==> (msg matches NetworkMessage::Session(
                SessionMessage::CreateSession { project_path, session_id },
            ) ==> acts@.len() == 1 && (acts@[0] matches Action::CreateSession { session_id: s, project_path: p, config }
                && s == session_id && p == project_path && config.shell@ == "cd "@ + project_path@ + " && "@
                + old(self).shell())),
            !old(self).finished() && old(self).authenticated() ==> (msg matches NetworkMessage::Session(
                SessionMessage::CloseSession { session_id },
            ) ==> acts@.len() >= 1 && acts@.last() == Action::CloseSession { session_id } && (acts@.len() == 2 <==> (
            old(self).pump() matches Some(SessionKey::Uuid(u)) && u@ == session_id@)) && (acts@.len() == 2
                ==> acts@[0] == Action::StopPump)),
            !old(self).finished() && old(self).authenticated() ==> (msg matches NetworkMessage::Session(
                SessionMessage::ListSessions,
            ) ==> acts@.len() == 1 && (acts@[0] matches Action::Send(
                NetworkMessage::Event(TerminalEvent::Output { data }),
            ) && data@ == encode_utf8(listing_text(sessions.session_ids())))),
            !old(self).finished() && old(self).authenticated() ==> (msg matches NetworkMessage::Session(
                SessionMessage::CheckSession { session_id },
            ) ==> acts@.len() == 1 && (if sessions.sessions().contains_key(session_id@) {
                acts@[0] == Action::Send(NetworkMessage::Event(TerminalEvent::SessionReAttach { session_id }))
            } else {
                acts@[0] == Action::Send(NetworkMessage::Event(TerminalEvent::SessionNotFound { session_id }))
            })),
            !old(self).finished() && old(self).authenticated() ==> (msg matches NetworkMessage::Session(
                SessionMessage::SwitchSession { session_id },
            ) ==> (!sessions.sessions().contains_key(session_id@) ==> acts@ == seq![
                Action::Send(NetworkMessage::Event(TerminalEvent::SessionNotFound { session_id })),
            ] && final(self).pump() == old(self).pump() && final(self).active() == old(self).active())),
            !old(self).finished() && old(self).authenticated() ==> (msg matches NetworkMessage::Session(
                SessionMessage::SwitchSession { session_id },
            ) ==> (sessions.sessions().contains_key(session_id@) ==> {
                let stop = if old(self).pump() is Some {
                    seq![Action::StopPump]
                } else {
                    seq![]
                };
                &&& acts@.len() == stop.len() + 3
                &&& acts@.subrange(0, stop.len() as int) == stop
                &&& acts@[stop.len() as int] matches Action::Send(
                    NetworkMessage::SessionHistory { session_id: h, lines },
                ) && h@ == session_id@ && lines@.map_values(|l: String| l@)
                    == sessions.sessions()[session_id@].history
                &&& acts@[stop.len() + 1int] == Action::StartPump {
                    target: SessionKey::Uuid(session_id),
                    kind: PumpKind::Tagged,
                }
                &&& acts@[stop.len() + 2int] == Action::Send(
                    NetworkMessage::Event(TerminalEvent::SessionSwitched { session_id }),
                )
                &&& final(self).pump() == Some(SessionKey::Uuid(session_id))
                &&& final(self).active() == Some(session_id)
            })),
    {
        let mut acts: Vec<Action> = Vec::new();
        if self.finished {
            return acts;
        }
        if !self.authenticated {
            match msg {
                NetworkMessage::Hello { .. } => {},
                _ => {
                    self.shutdown(&mut acts);
                    assert(acts@ =~= seq![Action::Finish]);
                    return acts;
                },
            }
        }
        let ghost slot0 = self.pump is Some;
        match msg {
            NetworkMessage::Hello { protocol_version, auth_token, .. } => {
                acts.push(Action::Send(NetworkMessage::hello(None)));
                proof {
                    lemma_one_action(slot0, acts@);
                }
                if protocol_version != PROTOCOL_VERSION {
                    self.shutdown(&mut acts);
                    return acts;
                }
                match auth_token {
                    None => {
                        let _ = limiter.record_auth_failure(peer);
                        self.shutdown(&mut acts);
                    },
                    Some(t) => {
                        if tokens.validate(&t, now) {
                            limiter.reset_auth_failures(peer);
                            self.authenticated = true;
                        } else {
                            let _ = limiter.record_auth_failure(peer);
                            self.shutdown(&mut acts);
                        }
                    },
                }
                acts
            },
            NetworkMessage::Ping { timestamp } => {
                acts.push(Action::Send(NetworkMessage::pong(timestamp)));
                proof {
                    lemma_one_action(slot0, acts@);
                }
                acts
            },
            NetworkMessage::Close => {
                self.shutdown(&mut acts);
                proof {
                    assert(acts@ =~= Seq::<Action>::empty() + shutdown_actions(slot0, old(self).legacy, old(self).active));
                }
                acts
            },
            NetworkMessage::Input { data } => {
                self.route_input(data, &mut acts);
                acts
            },
            NetworkMessage::Command(cmd) => {
                let data = vstd::slice::slice_to_vec(cmd.text.as_str().as_bytes());
                self.route_input(data, &mut acts);
                acts
            },
            NetworkMessage::Resize { rows, cols } => {
                self.route_resize(rows, cols, &mut acts);
                acts
            },
            NetworkMessage::RequestPty { rows, cols, shell, env } => {
                self.request_pty(rows, cols, shell, env, &mut acts);
                acts
            },
            NetworkMessage::StartShell => {
                self.start_shell(&mut acts);
                acts
            },
            NetworkMessage::ListDir { path, .. } => {
                acts.push(Action::ListDir { path });
                proof {
                    lemma_one_action(slot0, acts@);
                }
                acts
            },
            NetworkMessage::WatchDir { path } => {
                let mut watcher_id = String::from_str("watch_");
                let n = match self.legacy {
                    Some(id) => id,
                    None => 0,
                };
                let digits = u64_to_decimal(n);
                push_str(&mut watcher_id, digits.as_str());
                acts.push(Action::WatchDir { path, watcher_id });
                proof {
                    lemma_one_action(slot0, acts@);
                }
                acts
            },
            NetworkMessage::UnwatchDir { watcher_id } => {
                acts.push(Action::UnwatchDir { watcher_id });
                proof {
                    lemma_one_action(slot0, acts@);
                }
                acts
            },
            NetworkMessage::ReadFile { path, max_size } => {
                acts.push(Action::ReadFile { path, max_size });
                proof {
                    lemma_one_action(slot0, acts@);
                }
                acts
            },
            NetworkMessage::Session(sm) => {
                self.on_session_message(sm, sessions, &mut acts);
                acts
            },
            _ => acts,
        }
    }

    fn route_input(&mut self, data: Vec<u8>, acts: &mut Vec<Action>)
        requires
            old(self).wf(),
            old(self).authenticated,
            !old(self).finished,
            old(acts)@.len() == 0,
        ensures
            final(self).wf(),
            final(self).authenticated,
            final(self).explicit == old(self).explicit,
            final(self).finished == old(self).finished,
            final(self).pump == old(self).pump,
            final(self).active == old(self).active,
            final(self).legacy == old(self).legacy,
            pump_steps(old(self).pump is Some, final(acts)@) == Some(final(self).pump is Some),
            final(self).pending_resize == old(self).pending_resize,
            final(self).shell_started == old(self).shell_started,
            final(self).pty_requested == old(self).pty_requested,
            final(self).default_shell == old(self).default_shell,
            input_outcome(*old(self), *final(self), data@, final(acts)@),
    {
        let ghost slot0 = self.pump is Some;
        match &self.active {
            Some(u) => {
                acts.push(Action::WriteSession { session_id: u.clone(), data });
            },
            None => {
                match self.legacy {
                    Some(id) => {
                        if !self.explicit || self.shell_started {
                            acts.push(Action::WriteLegacy { id, data });
                        }
                    },
                    None => {
                        if !self.explicit {
                            if self.spawning {
                                let mut more = data;
                                self.pending_input.append(&mut more);
                            } else {
                                let config = self.sized_config();
                                self.spawning = true;
                                self.pending_input = data;
                                acts.push(Action::SpawnLegacy(config));
                            }
                        }
                    },
                }
            },
        }
        proof {
            if acts@.len() == 1 {
                lemma_one_action(slot0, acts@);
            }
        }
    }

    fn route_resize(&mut self, rows: u16, cols: u16, acts: &mut Vec<Action>)
        requires
            old(self).wf(),
            old(self).authenticated,
            !old(self).finished,
            old(acts)@.len() == 0,
        ensures
            final(self).wf(),
            final(self).authenticated,
            final(self).explicit == old(self).explicit,
            final(self).finished == old(self).finished,
            final(self).pump == old(self).pump,
            final(self).active == old(self).active,
            pump_steps(old(self).pump is Some, final(acts)@) == Some(final(self).pump is Some),
            final(self).legacy == old(self).legacy,
            final(self).spawning == old(self).spawning,
            final(self).shell_started == old(self).shell_started,
            final(self).pty_requested == old(self).pty_requested,
            resize_outcome(*old(self), *final(self), rows, cols, final(acts)@),
    {
        let ghost slot0 = self.pump is Some;
        match &self.active {
            Some(u) => {
                acts.push(Action::ResizeSession { session_id: u.clone(), rows, cols });
                assert(acts@ =~= seq![Action::ResizeSession { session_id: old(self).active->0, rows, cols }]);
            },
            None => {
                match self.legacy {
                    Some(id) => {
                        if !self.explicit || self.shell_started {
                            acts.push(Action::ResizeLegacy { id, rows, cols });
                            assert(acts@ =~= seq![Action::ResizeLegacy { id, rows, cols }]);
                        }
                    },
                    None => {
                        if !self.explicit {
                            self.pending_resize = Some((rows, cols));
                        }
                    },
                }
            },
        }
        proof {
            if acts@.len() == 1 {
                lemma_one_action(slot0, acts@);
            }
        }
    }

    fn request_pty(
        &mut self,
        rows: u16,
        cols: u16,
        shell: Option<String>,
        env: Vec<(String, String)>,
        acts: &mut Vec<Action>,
    )
        requires
            old(self).wf(),
            old(self).authenticated,
            !old(self).finished,
            old(acts)@.len() == 0,
        ensures
            final(self).wf(),
            final(self).authenticated,
            final(self).explicit == old(self).explicit,
            final(self).finished == old(self).finished,
            final(self).pump == old(self).pump,
            final(self).active == old(self).active,
            pump_steps(old(self).pump is Some, final(acts)@) == Some(final(self).pump is Some),
            !old(self).pty_requested && old(self).legacy is None && !old(self).spawning ==> final(acts)@.len() == 1
                && (final(acts)@[0] matches Action::AllocatePty(c) && c.rows == rows && c.cols == cols
                && c.env@.len() >= 4 && c.env@[0].0@ == "TERM"@ && size_env(
                c.env@.subrange(c.env@.len() - 3, c.env@.len() as int),
                rows,
                cols,
            )) && final(self).pty_requested,
            old(self).pty_requested || old(self).legacy is Some || old(self).spawning ==> final(acts)@.len() == 0,
    {
        let ghost slot0 = self.pump is Some;
        if self.pty_requested || self.legacy.is_some() || self.spawning {
            return;
        }
        let base = TerminalConfig::default();
        let mut config = match shell {
            Some(s) => base.with_shell(s),
            None => base.with_shell(self.default_shell.clone()),
        };
        config.rows = rows;
        config.cols = cols;
        let mut extra = env;
        config.env.append(&mut extra);
        let ghost base_env = config.env@;
        assert(base_env.len() >= 1 && base_env[0].0@ == "TERM"@);
        let config = with_size_env(config);
        assert(config.env@[0] == config.env@.subrange(0, base_env.len() as int)[0]);
        self.pty_requested = true;
        acts.push(Action::AllocatePty(config));
        proof {
            lemma_one_action(slot0, acts@);
        }
    }

    fn start_shell(&mut self, acts: &mut Vec<Action>)
        requires
            old(self).wf(),
            old(self).authenticated,
            !old(self).finished,
            old(acts)@.len() == 0,
        ensures
            final(self).wf(),
            final(self).authenticated,
            final(self).explicit == old(self).explicit,
            final(self).finished == old(self).finished,
            final(self).active == old(self).active,
            pump_steps(old(self).pump is Some, final(acts)@) == Some(final(self).pump is Some),
            start_shell_outcome(*old(self), *final(self), final(acts)@),
    {
        if !self.pty_requested || self.shell_started {
            return;
        }
        match self.legacy {
            Some(id) => {
                self.shell_started = true;
                let ghost a0 = acts@;
                self.start_pump(acts, SessionKey::Legacy(id), PumpKind::Interactive);
                proof {
                    let stop = if old(self).pump is Some {
                        seq![Action::StopPump]
                    } else {
                        seq![]
                    };
                    assert(a0 =~= Seq::<Action>::empty());
                    assert(acts@ =~= stop + seq![
                        Action::StartPump { target: SessionKey::Legacy(id), kind: PumpKind::Interactive },
                    ]);
                }
            },
            None => {},
        }
    }

    fn on_session_message(&mut self, sm: SessionMessage, sessions: &SessionTable, acts: &mut Vec<Action>)
        requires
            old(self).wf(),
            old(self).authenticated,
            !old(self).finished,
            old(acts)@.len() == 0,
            sessions.wf(),
        ensures
            final(self).wf(),
            final(self).authenticated,
            final(self).explicit == old(self).explicit,
            final(self).finished == old(self).finished,
            pump_steps(old(self).pump is Some, final(acts)@) == Some(final(self).pump is Some),
            (sm matches SessionMessage::CreateSession { project_path, session_id } ==> final(acts)@.len() == 1
                && (final(acts)@[0] matches Action::CreateSession { session_id: s, project_path: p, config }
                && s == session_id && p == project_path && config.shell@ == "cd "@ + project_path@ + " && "@
                + old(self).default_shell@)),
            (sm matches SessionMessage::CloseSession { session_id } ==> final(acts)@.len() >= 1
                && final(acts)@.last() == Action::CloseSession { session_id } && (final(acts)@.len() == 2 <==> (
            old(self).pump matches Some(SessionKey::Uuid(u)) && u@ == session_id@)) && (final(acts)@.len() == 2
                ==> final(acts)@[0] == Action::StopPump)),
            (sm is ListSessions ==> final(acts)@.len() == 1 && (final(acts)@[0] matches Action::Send(
                NetworkMessage::Event(TerminalEvent::Output { data }),
            ) && data@ == encode_utf8(listing_text(sessions.session_ids())))),
            sm matches SessionMessage::CheckSession { session_id } ==> final(acts)@.len() == 1 && (
            if sessions.sessions().contains_key(session_id@) {
                final(acts)@[0] == Action::Send(NetworkMessage::Event(TerminalEvent::SessionReAttach { session_id }))
            } else {
                final(acts)@[0] == Action::Send(NetworkMessage::Event(TerminalEvent::SessionNotFound { session_id }))
            }),
            sm matches SessionMessage::SwitchSession { session_id } ==> (!sessions.sessions().contains_key(
                session_id@,
            ) ==> final(acts)@ == seq![
                Action::Send(NetworkMessage::Event(TerminalEvent::SessionNotFound { session_id })),
            ] && final(self).pump == old(self).pump && final(self).active == old(self).active),
            sm matches SessionMessage::SwitchSession { session_id } ==> (sessions.sessions().contains_key(
                session_id@,
            ) ==> {
                let stop = if old(self).pump is Some {
                    seq![Action::StopPump]
                } else {
                    seq![]
                };
                &&& final(acts)@.len() == stop.len() + 3
                &&& final(acts)@.subrange(0, stop.len() as int) == stop
                &&& final(acts)@[stop.len() as int] matches Action::Send(
                    NetworkMessage::SessionHistory { session_id: h, lines },
                ) && h@ == session_id@ && lines@.map_values(|l: String| l@)
                    == sessions.sessions()[session_id@].history
                &&& final(acts)@[stop.len() + 1int] == Action::StartPump {
                    target: SessionKey::Uuid(session_id),
                    kind: PumpKind::Tagged,
                }
                &&& final(acts)@[stop.len() + 2int] == Action::Send(
                    NetworkMessage::Event(TerminalEvent::SessionSwitched { session_id }),
                )
                &&& final(self).pump == Some(SessionKey::Uuid(session_id))
                &&& final(self).active == Some(session_id)
            }),
    {
        let ghost slot0 = self.pump is Some;
        match sm {
            SessionMessage::CreateSession { project_path, session_id } => {
                let base = self.sized_config();
                let mut shell = String::from_str("cd ");
                push_str(&mut shell, project_path.as_str());
                push_str(&mut shell, " && ");
                push_str(&mut shell, self.default_shell.as_str());
                let config = base.with_shell(shell);
                acts.push(Action::CreateSession { session_id, project_path, config });
                proof {
                    lemma_one_action(slot0, acts@);
                }
            },
            SessionMessage::CheckSession { session_id } => {
                let event = if sessions.session_exists(&session_id) {
                    TerminalEvent::SessionReAttach { session_id }
                } else {
                    TerminalEvent::SessionNotFound { session_id }
                };
                acts.push(Action::Send(NetworkMessage::Event(event)));
                proof {
                    lemma_one_action(slot0, acts@);
                }
            },
            SessionMessage::SwitchSession { session_id } => {
                if !sessions.session_exists(&session_id) {
                    acts.push(Action::Send(NetworkMessage::Event(TerminalEvent::SessionNotFound { session_id })));
                    proof {
                        lemma_one_action(slot0, acts@);
                    }
                    return;
                }
                let ghost a0 = acts@;
                let ghost sid = session_id;
                if self.pump.is_some() {
                    acts.push(Action::StopPump);
                    self.pump = None;
                }
                let ghost a1 = acts@;
                let lines = sessions.get_history(&session_id);
                acts.push(Action::Send(NetworkMessage::SessionHistory { session_id: session_id.clone(), lines }));
                let ghost a2 = acts@;
                self.start_pump(acts, SessionKey::Uuid(session_id.clone()), PumpKind::Tagged);
                let ghost a3 = acts@;
                self.active = Some(session_id.clone());
                acts.push(Action::Send(NetworkMessage::Event(TerminalEvent::SessionSwitched { session_id })));
                proof {
                    if slot0 {
                        lemma_steps_push(slot0, a0, Action::StopPump);
                    }
                    lemma_steps_push(slot0, a1, a2.last());
                    lemma_steps_push(slot0, a3, acts@.last());
                    let stop = if slot0 {
                        seq![Action::StopPump]
                    } else {
                        seq![]
                    };
                    assert(a1 =~= stop);
                    assert(acts@.subrange(0, stop.len() as int) =~= stop);
                }
            },
            SessionMessage::CloseSession { session_id } => {
                let ghost a0 = acts@;
                let serves = match &self.pump {
                    Some(SessionKey::Uuid(u)) => *u == session_id,
                    _ => false,
                };
                if serves {
                    acts.push(Action::StopPump);
                    self.pump = None;
                }
                let ghost a1 = acts@;
                acts.push(Action::CloseSession { session_id });
                proof {
                    if serves {
                        lemma_steps_push(slot0, a0, Action::StopPump);
                    }
                    lemma_steps_push(slot0, a1, acts@.last());
                }
            },
            SessionMessage::ListSessions => {
                let ids = sessions.list_sessions();
                let mut text = String::from_str("Active sessions:\n");
                let joined = join_strings(&ids, "\n");
                push_str(&mut text, joined.as_str());
                acts.push(Action::Send(NetworkMessage::Event(TerminalEvent::output_str(text.as_str()))));
                proof {
                    lemma_one_action(slot0, acts@);
                }
            },
        }
    }

    /// A stream refused before anything is read from it (a banned peer or
    /// one out of quota): it gets the same placeholder `Hello` as a failed
    /// handshake, so that the two cannot be told apart, and ends.
    pub fn refuse(&mut self) -> (acts: Vec<Action>)
        requires
            old(self).wf(),
        ensures
            final(self).wf(),
            final(self).finished(),
            final(self).explicit() == old(self).explicit(),
            pump_steps(old(self).pump() is Some, acts@) == Some(final(self).pump() is Some),
            old(self).finished() ==> acts@.len() == 0,
            !old(self).finished() ==> acts@.len() >= 1 && is_server_hello(acts@[0]) && acts@.subrange(
                1,
                acts@.len() as int,
            ) == shutdown_actions(old(self).pump() is Some, old(self).legacy(), old(self).active()),
    {
        let mut acts: Vec<Action> = Vec::new();
        if self.finished {
            return acts;
        }
        let ghost slot0 = self.pump is Some;
        acts.push(Action::Send(NetworkMessage::hello(None)));
        proof {
            lemma_one_action(slot0, acts@);
        }
        let ghost a1 = acts@;
        self.shutdown(&mut acts);
        assert(acts@.subrange(1, acts@.len() as int) =~= acts@.subrange(a1.len() as int, acts@.len() as int));
        assert(acts@[0] == a1[0]);
        acts
    }

    /// The stream ended without `Close`: the same clean-up as `Close`.
    pub fn on_end(&mut self) -> (acts: Vec<Action>)
        requires
            old(self).wf(),
        ensures
            final(self).wf(),
            final(self).finished(),
            final(self).explicit() == old(self).explicit(),
            pump_steps(old(self).pump() is Some, acts@) == Some(final(self).pump() is Some),
            old(self).finished() ==> acts@.len() == 0,
            !old(self).finished() ==> acts@ == shutdown_actions(old(self).pump() is Some, old(self).legacy(), old(self).active()),
    {
        let mut acts: Vec<Action> = Vec::new();
        if self.finished {
            return acts;
        }
        self.shutdown(&mut acts);
        assert(acts@ =~= Seq::<Action>::empty() + shutdown_actions(old(self).pump is Some, old(self).legacy, old(self).active));
        acts
    }

    /// Outcome of `SpawnLegacy`: the new session's number, or `None` when
    /// spawning failed. On success the terminal is sized as announced, the
    /// output pump starts, and input received meanwhile is written.
    pub fn on_legacy_spawned(&mut self, spawned: Option<u64>) -> (acts: Vec<Action>)
        requires
            old(self).wf(),
        ensures
            final(self).wf(),
            final(self).explicit() == old(self).explicit(),
            final(self).finished() == old(self).finished(),
            pump_steps(old(self).pump() is Some, acts@) == Some(final(self).pump() is Some),
            old(self).awaiting_spawn() && spawned is Some ==> final(self).legacy() == spawned
                && final(self).pump() == Some(SessionKey::Legacy(spawned->0)),
            !old(self).awaiting_spawn() && spawned is Some ==> acts@ == seq![
                Action::CloseLegacy { id: spawned->0 },
            ] && final(self).legacy() == old(self).legacy() && final(self).pump() == old(self).pump(),
            spawned is None ==> final(self).legacy() == old(self).legacy() && final(self).pump() == old(self).pump(),
            old(self).awaiting_spawn() && spawned is Some ==> {
                let id = spawned->0;
                let r: int = if old(self).pending_resize() is Some { 1 } else { 0 };
                let k: int = if old(self).pump() is Some { 1 } else { 0 };
                &&& (old(self).pending_resize() matches Some((rows, cols)) ==> acts@[0] == Action::ResizeLegacy {
                    id,
                    rows,
                    cols,
                })
                &&& (k == 1 ==> acts@[r] == Action::StopPump)
                &&& acts@[r + k] == Action::StartPump { target: SessionKey::Legacy(id), kind: PumpKind::Basic }
                &&& (old(self).pending_input().len() > 0 ==> acts@.len() == r + k + 2 && (acts@[r + k + 1] matches Action::WriteLegacy { id: i, data }
                    && i == id && data@ == old(self).pending_input()))
                &&& (old(self).pending_input().len() == 0 ==> acts@.len() == r + k + 1)
            },
            old(self).awaiting_spawn() && spawned is None ==> acts@.len() == 1 && (acts@[0] matches Action::Send(
                NetworkMessage::Event(TerminalEvent::Error { .. }),
            )) && !final(self).awaiting_spawn() && final(self).pending_input().len() == 0,
            !old(self).awaiting_spawn() && spawned is None ==> acts@.len() == 0,
    {
        let mut acts: Vec<Action> = Vec::new();
        let ghost slot0 = self.pump is Some;
        if !self.authenticated || self.finished || self.legacy.is_some() || !self.spawning {
            // Not waiting for a terminal: one that arrives anyway is closed.
            if let Some(id) = spawned {
                acts.push(Action::CloseLegacy { id });
                proof {
                    lemma_one_action(slot0, acts@);
                }
            }
            return acts;
        }
        self.spawning = false;
        let ghost queued = self.pending_input@;
        let data = self.pending_input.split_off(0);
        assert(data@ =~= queued);
        match spawned {
            Some(id) => {
                self.legacy = Some(id);
                let ghost a0 = acts@;
                match self.pending_resize {
                    Some((rows, cols)) => {
                        acts.push(Action::ResizeLegacy { id, rows, cols });
                        proof {
                            lemma_steps_push(slot0, a0, acts@.last());
                        }
                    },
                    None => {},
                }
                let ghost a05 = acts@;
                self.start_pump(&mut acts, SessionKey::Legacy(id), PumpKind::Basic);
                let ghost a1 = acts@;
                proof {
                    let r: int = if old(self).pending_resize is Some { 1 } else { 0 };
                    let k: int = if old(self).pump is Some { 1 } else { 0 };
                    assert(a05.len() == r);
                    assert(a1.len() == r + k + 1);
                    assert(a1[r + k] == Action::StartPump { target: SessionKey::Legacy(id), kind: PumpKind::Basic });
                    if k == 1 {
                        assert(a1[r] == Action::StopPump);
                    }
                    if r == 1 {
                        assert(a1[0] == a05[0]);
                    }
                }
                if data.len() > 0 {
                    acts.push(Action::WriteLegacy { id, data });
                    proof {
                        lemma_steps_push(slot0, a1, acts@.last());
                    }
                }
            },
            None => {
                let msg = String::from_str("Failed to create session");
                acts.push(Action::Send(NetworkMessage::Event(TerminalEvent::Error { message: msg })));
                proof {
                    lemma_one_action(slot0, acts@);
                }
            },
        }
        acts
    }

    /// Outcome of `AllocatePty`: the terminal's number, or `None` when
    /// allocation failed (reported to the client).
    pub fn on_pty_allocated(&mut self, allocated: Option<u64>) -> (acts: Vec<Action>)
        requires
            old(self).wf(),
        ensures
            final(self).wf(),
            final(self).explicit() == old(self).explicit(),
            final(self).finished() == old(self).finished(),
            final(self).pump() == old(self).pump(),
            pump_steps(old(self).pump() is Some, acts@) == Some(final(self).pump() is Some),
            (old(self).authenticated() && !old(self).finished() && old(self).legacy() is None
                && allocated is Some) ==> final(self).legacy() == allocated,
            old(self).authenticated() && !old(self).finished() && old(self).legacy() is None && allocated is None
                ==> acts@.len() == 1 && (acts@[0] matches Action::Send(
                NetworkMessage::Event(TerminalEvent::Error { .. }),
            )),
            allocated is Some ==> acts@.len() == 0,
            !(old(self).authenticated() && !old(self).finished() && old(self).legacy() is None) ==> acts@.len() == 0
                && final(self).legacy() == old(self).legacy(),
    {
        let mut acts: Vec<Action> = Vec::new();
        let ghost slot0 = self.pump is Some;
        if !self.authenticated || self.finished || self.legacy.is_some() {
            return acts;
        }
        match allocated {
            Some(id) => {
                self.legacy = Some(id);
            },
            None => {
                let msg = String::from_str("Failed to allocate PTY");
                acts.push(Action::Send(NetworkMessage::Event(TerminalEvent::Error { message: msg })));
                proof {
                    lemma_one_action(slot0, acts@);
                }
            },
        }
        acts
    }

    /// Outcome of `CreateSession` for `session_id` and `project_path`.
    /// A created session is announced; a missing project path is reported
    /// and ends the stream; another failure is reported.
    pub fn on_session_created(
        &mut self,
        session_id: String,
        project_path: String,
        outcome: CreateOutcome,
    ) -> (acts: Vec<Action>)
        requires
            old(self).wf(),
        ensures
            final(self).wf(),
            final(self).explicit() == old(self).explicit(),
            pump_steps(old(self).pump() is Some, acts@) == Some(final(self).pump() is Some),
            old(self).finished() ==> acts@.len() == 0,
            !old(self).finished() && outcome is Created ==> acts@ == seq![
                Action::Send(NetworkMessage::Event(TerminalEvent::SessionCreated { session_id })),
            ],
            !old(self).finished() && outcome is PathMissing ==> acts@.len() >= 2 && (acts@[0] matches Action::Send(
                NetworkMessage::Event(TerminalEvent::Error { .. }),
            )) && final(self).finished(),
            !old(self).finished() && outcome is Failed ==> acts@.len() == 1 && (acts@[0] matches Action::Send(
                NetworkMessage::Event(TerminalEvent::Error { .. }),
            )),
    {
        let mut acts: Vec<Action> = Vec::new();
        let ghost slot0 = self.pump is Some;
        if self.finished {
            return acts;
        }
        let missing = match &outcome {
            CreateOutcome::PathMissing => true,
            _ => false,
        };
        match outcome {
            CreateOutcome::Created => {
                acts.push(Action::Send(NetworkMessage::Event(TerminalEvent::SessionCreated { session_id })));
            },
            CreateOutcome::PathMissing => {
                let mut msg = String::from_str("Project path not found: ");
                push_str(&mut msg, project_path.as_str());
                acts.push(Action::Send(NetworkMessage::Event(TerminalEvent::Error { message: msg })));
            },
            CreateOutcome::Failed(reason) => {
                let mut msg = String::from_str("Failed to create session: ");
                push_str(&mut msg, reason.as_str());
                acts.push(Action::Send(NetworkMessage::Event(TerminalEvent::Error { message: msg })));
            },
        }
        proof {
            lemma_one_action(slot0, acts@);
        }
        if missing {
            let ghost a1 = acts@;
            self.shutdown(&mut acts);
            proof {
                assert(acts@[0] == a1[0]);
            }
        }
        acts
    }

    /// Outcome of `CloseSession`: `Ok` announces the closing and forgets the
    /// session as the active one; `Err` reports the failure.
    pub fn on_session_closed(&mut self, session_id: String, outcome: Result<(), String>) -> (acts: Vec<Action>)
        requires
            old(self).wf(),
        ensures
            final(self).wf(),
            final(self).explicit() == old(self).explicit(),
            final(self).finished() == old(self).finished(),
            final(self).pump() == old(self).pump(),
            pump_steps(old(self).pump() is Some, acts@) == Some(final(self).pump() is Some),
            old(self).finished() ==> acts@.len() == 0,
            !old(self).finished() && outcome is Ok ==> acts@ == seq![
                Action::Send(NetworkMessage::Event(TerminalEvent::SessionClosed { session_id })),
            ] && (old(self).active() matches Some(a) && a@ == session_id@ ==> final(self).active() is None),
            !old(self).finished() && outcome is Err ==> acts@.len() == 1 && (acts@[0] matches Action::Send(
                NetworkMessage::Event(TerminalEvent::Error { .. }),
            )) && final(self).active() == old(self).active(),
    {
        let mut acts: Vec<Action> = Vec::new();
        let ghost slot0 = self.pump is Some;
        if self.finished {
            return acts;
        }
        match outcome {
            Ok(()) => {
                let matches_active = match &self.active {
                    Some(a) => *a == session_id,
                    None => false,
                };
                if matches_active {
                    self.active = None;
                }
                acts.push(Action::Send(NetworkMessage::Event(TerminalEvent::SessionClosed { session_id })));
            },
            Err(reason) => {
                let mut msg = String::from_str("Failed to close session: ");
                push_str(&mut msg, reason.as_str());
                acts.push(Action::Send(NetworkMessage::Event(TerminalEvent::Error { message: msg })));
            },
        }
        proof {
            lemma_one_action(slot0, acts@);
        }
        acts
    }
}

} // verus!
