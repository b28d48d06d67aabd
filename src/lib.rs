//! Host-side runtime of a remote-terminal service: wire framing, message
//! schema, token store, rate limiting and ban list, session bookkeeping,
//! output batching, and the per-stream connection state machine.
//!
//! Sockets, pseudo-terminals, timers and tasks live with the caller, which
//! feeds events in and performs the actions that come back.

use vstd::prelude::*;

pub mod auth;
pub mod batching;
pub mod cert;
pub mod clock;
pub mod codec;
pub mod config;
pub mod connection;
pub mod error;
pub mod fingerprint;
pub mod heartbeat;
pub mod history;
pub mod keyed;
pub mod ratelimit;
pub mod session;
pub mod snapshot;
pub mod status;
pub mod terminal;
pub mod text;
pub mod token_store;
pub mod types;
pub mod vfs;

pub use auth::AuthToken;
pub use error::CoreError;

verus! {

/// Version of the wire protocol spoken by this library.
pub const PROTOCOL_VERSION: u32 = 1;

/// Number of lines kept by a terminal snapshot.
pub const SNAPSHOT_BUFFER_LINES: usize = 1000;

/// Application version reported in `Hello`.
pub const APP_VERSION_STRING: &'static str = "0.1.0-mvp";

} // verus!
