//! The wire vocabulary: commands, events, and the tagged network message.

use vstd::prelude::*;
use vstd::slice::slice_to_vec;
use vstd::string::StringSliceAdditionalSpecFns;
use crate::auth::AuthToken;
use crate::clock::{unix_micros, unix_millis};
use crate::error::CoreError;
use crate::{APP_VERSION_STRING, PROTOCOL_VERSION};

verus! {

/// Text input sent by a client.
#[derive(Debug, Clone, PartialEq, Eq)]
pub struct TerminalCommand {
    /// Identifier, taken from the clock in microseconds.
    pub id: u64,
    /// The text or keystrokes.
    pub text: String,
    /// Unix time in milliseconds.
    pub timestamp: u64,
}

impl TerminalCommand {
    /// A command carrying `text`, stamped with the current time.
    pub fn new(text: String) -> (c: TerminalCommand)
        ensures
            c.text@ == text@,
    {
        TerminalCommand { id: Self::generate_id(), text, timestamp: Self::now() }
    }

    fn generate_id() -> u64 {
        unix_micros()
    }

    fn now() -> u64 {
        unix_millis()
    }
}

/// Events sent by the host.
#[derive(Debug, Clone, PartialEq, Eq)]
pub enum TerminalEvent {
    /// Terminal output bytes.
    Output { data: Vec<u8> },
    Error { message: String },
    Exit { code: i32 },
    Resized { rows: u16, cols: u16 },
    SessionCreated { session_id: String },
    SessionReAttach { session_id: String },
    SessionNotFound { session_id: String },
    SessionSwitched { session_id: String },
    SessionClosed { session_id: String },
}

impl TerminalEvent {
    pub fn output(data: Vec<u8>) -> (e: TerminalEvent)
        ensures
            e matches TerminalEvent::Output { data: d } && d@ == data@,
    {
        TerminalEvent::Output { data }
    }

    /// Output event holding the UTF-8 bytes of `s`.
    pub fn output_str(s: &str) -> (e: TerminalEvent)
        ensures
            e matches TerminalEvent::Output { data: d } && d@ == s.spec_bytes(),
    {
        TerminalEvent::Output { data: slice_to_vec(s.as_bytes()) }
    }

    pub fn error(message: String) -> (e: TerminalEvent)
        ensures
            e matches TerminalEvent::Error { message: m } && m@ == message@,
    {
        TerminalEvent::Error { message }
    }

    pub fn exit(code: i32) -> (e: TerminalEvent)
        ensures
            e == (TerminalEvent::Exit { code }),
    {
        TerminalEvent::Exit { code }
    }

    pub fn resized(rows: u16, cols: u16) -> (e: TerminalEvent)
        ensures
            e == (TerminalEvent::Resized { rows, cols }),
    {
        TerminalEvent::Resized { rows, cols }
    }

    pub fn session_created(session_id: String) -> (e: TerminalEvent)
        ensures
            e matches TerminalEvent::SessionCreated { session_id: s } && s@ == session_id@,
    {
        TerminalEvent::SessionCreated { session_id }
    }

    pub fn session_reattach(session_id: String) -> (e: TerminalEvent)
        ensures
            e matches TerminalEvent::SessionReAttach { session_id: s } && s@ == session_id@,
    {
        TerminalEvent::SessionReAttach { session_id }
    }

    pub fn session_not_found(session_id: String) -> (e: TerminalEvent)
        ensures
            e matches TerminalEvent::SessionNotFound { session_id: s } && s@ == session_id@,
    {
        TerminalEvent::SessionNotFound { session_id }
    }

    pub fn session_switched(session_id: String) -> (e: TerminalEvent)
        ensures
            e matches TerminalEvent::SessionSwitched { session_id: s } && s@ == session_id@,
    {
        TerminalEvent::SessionSwitched { session_id }
    }

    pub fn session_closed(session_id: String) -> (e: TerminalEvent)
        ensures
            e matches TerminalEvent::SessionClosed { session_id: s } && s@ == session_id@,
    {
        TerminalEvent::SessionClosed { session_id }
    }
}

/// Directory entry for remote browsing.
#[derive(Debug, Clone, PartialEq, Eq)]
pub struct DirEntry {
    pub name: String,
    pub path: String,
    pub is_dir: bool,
    pub is_symlink: bool,
    pub size: Option<u64>,
    pub modified: Option<u64>,
    pub permissions: Option<String>,
}

/// Kind of a file-system change.
#[derive(Debug, Clone, PartialEq, Eq)]
pub enum FileEventType {
    Created,
    Modified,
    Deleted,
    Renamed { old_name: String },
}

/// Output of one session, tagged with the session's identifier.
#[derive(Debug, Clone, PartialEq, Eq)]
pub struct TaggedOutput {
    pub session_id: String,
    pub data: Vec<u8>,
}

/// Session-control requests of a multi-session client.
#[derive(Debug, Clone, PartialEq, Eq)]
pub enum SessionMessage {
    CreateSession { project_path: String, session_id: String },
    CheckSession { session_id: String },
    SwitchSession { session_id: String },
    CloseSession { session_id: String },
    ListSessions,
}

/// One message on the wire.
#[derive(Debug, Clone, PartialEq, Eq)]
pub enum NetworkMessage {
    /// Handshake; the first frame in both directions.
    Hello {
        protocol_version: u32,
        app_version: String,
        capabilities: u32,
        auth_token: Option<AuthToken>,
    },
    /// Text input (older clients).
    Command(TerminalCommand),
    /// Raw keystrokes, control bytes included.
    Input { data: Vec<u8> },
    Event(TerminalEvent),
    Ping { timestamp: u64 },
    Pong { timestamp: u64 },
    Resize { rows: u16, cols: u16 },
    /// Explicit pseudo-terminal allocation.
    RequestPty { rows: u16, cols: u16, shell: Option<String>, env: Vec<(String, String)> },
    /// Starts the shell on the allocated pseudo-terminal.
    StartShell,
    RequestSnapshot,
    Snapshot { data: Vec<u8>, rows: u16, cols: u16 },
    /// Graceful end of the stream.
    Close,
    ListDir { path: String, depth: Option<u32> },
    DirChunk { chunk_index: u32, total_chunks: u32, entries: Vec<DirEntry>, has_more: bool },
    WatchDir { path: String },
    WatchStarted { watcher_id: String },
    FileEvent { watcher_id: String, path: String, event_type: FileEventType, timestamp: u64 },
    UnwatchDir { watcher_id: String },
    WatchError { watcher_id: String, error: String },
    ReadFile { path: String, max_size: usize },
    FileContent { path: String, content: String, size: usize, truncated: bool },
    /// Output of one session in multi-session mode.
    TaggedOutput(TaggedOutput),
    Session(SessionMessage),
    /// Recent lines of a session, sent just before it becomes active.
    SessionHistory { session_id: String, lines: Vec<String> },
}

impl NetworkMessage {
    /// The host's or client's handshake with the given token.
    pub fn hello(token: Option<AuthToken>) -> (m: NetworkMessage)
        ensures
            m matches NetworkMessage::Hello { protocol_version, app_version, capabilities, auth_token }
                && protocol_version == PROTOCOL_VERSION && app_version@ == APP_VERSION_STRING@
                && capabilities == 0 && auth_token == token,
    {
        NetworkMessage::Hello {
            protocol_version: PROTOCOL_VERSION,
            app_version: String::from_str(APP_VERSION_STRING),
            capabilities: 0,
            auth_token: token,
        }
    }

    /// Accepts a `Hello` of this protocol version.
    pub fn validate_handshake(&self) -> (r: Result<(), CoreError>)
        ensures
            (self matches NetworkMessage::Hello { protocol_version, .. }
                && protocol_version == PROTOCOL_VERSION) ==> r is Ok,
            self is Hello && self->protocol_version != PROTOCOL_VERSION ==> r == Err::<(), CoreError>(
                CoreError::ProtocolVersionMismatch { expected: PROTOCOL_VERSION, got: self->protocol_version },
            ),
            !(self is Hello) ==> r == Err::<(), CoreError>(CoreError::InvalidHandshake),
    {
        match self {
            NetworkMessage::Hello { protocol_version, .. } => {
                if *protocol_version == PROTOCOL_VERSION {
                    Ok(())
                } else {
                    Err(CoreError::ProtocolVersionMismatch {
                        expected: PROTOCOL_VERSION,
                        got: *protocol_version,
                    })
                }
            },
            _ => Err(CoreError::InvalidHandshake),
        }
    }

    /// A ping stamped with the current time in milliseconds.
    pub fn ping() -> (m: NetworkMessage)
        ensures
            m is Ping,
    {
        NetworkMessage::Ping { timestamp: unix_millis() }
    }

    /// The answer to `Ping { timestamp }`.
    pub fn pong(timestamp: u64) -> (m: NetworkMessage)
        ensures
            m == (NetworkMessage::Pong { timestamp }),
    {
        NetworkMessage::Pong { timestamp }
    }

    pub fn resize(rows: u16, cols: u16) -> (m: NetworkMessage)
        ensures
            m == (NetworkMessage::Resize { rows, cols }),
    {
        NetworkMessage::Resize { rows, cols }
    }

    /// Pseudo-terminal request with the default shell and no extra variables.
    pub fn request_pty(rows: u16, cols: u16) -> (m: NetworkMessage)
        ensures
            m matches NetworkMessage::RequestPty { rows: r, cols: c, shell, env }
                && r == rows && c == cols && shell is None && env@.len() == 0,
    {
        NetworkMessage::RequestPty { rows, cols, shell: None, env: Vec::new() }
    }

    pub fn request_pty_with_config(
        rows: u16,
        cols: u16,
        shell: Option<String>,
        env: Vec<(String, String)>,
    ) -> (m: NetworkMessage)
        ensures
            m == (NetworkMessage::RequestPty { rows, cols, shell, env }),
    {
        NetworkMessage::RequestPty { rows, cols, shell, env }
    }

    pub fn start_shell() -> (m: NetworkMessage)
        ensures
            m == NetworkMessage::StartShell,
    {
        NetworkMessage::StartShell
    }

    pub fn request_snapshot() -> (m: NetworkMessage)
        ensures
            m == NetworkMessage::RequestSnapshot,
    {
        NetworkMessage::RequestSnapshot
    }

    pub fn snapshot(data: Vec<u8>, rows: u16, cols: u16) -> (m: NetworkMessage)
        ensures
            m == (NetworkMessage::Snapshot { data, rows, cols }),
    {
        NetworkMessage::Snapshot { data, rows, cols }
    }

    pub fn read_file(path: String, max_size: usize) -> (m: NetworkMessage)
        ensures
            m == (NetworkMessage::ReadFile { path, max_size }),
    {
        NetworkMessage::ReadFile { path, max_size }
    }

    pub fn file_content(path: String, content: String, size: usize, truncated: bool) -> (m:
        NetworkMessage)
        ensures
            m == (NetworkMessage::FileContent { path, content, size, truncated }),
    {
        NetworkMessage::FileContent { path, content, size, truncated }
    }
}

/// Pairing details shown to a client out of band.
#[derive(Debug, Clone)]
pub struct QrPayload {
    pub ip: String,
    pub port: u16,
    /// Certificate fingerprint, hex with colons.
    pub fingerprint: String,
    /// Authentication token, hex.
    pub token: String,
    pub protocol_version: u32,
}

impl QrPayload {
    pub fn new(ip: String, port: u16, fingerprint: String, token: String) -> (q: QrPayload)
        ensures
            q.ip == ip,
            q.port == port,
            q.fingerprint == fingerprint,
            q.token == token,
            q.protocol_version == PROTOCOL_VERSION,
    {
        QrPayload { ip, port, fingerprint, token, protocol_version: PROTOCOL_VERSION }
    }
}

} // verus!
