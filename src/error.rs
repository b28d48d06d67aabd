//! Error values produced by the library.

use vstd::prelude::*;

verus! {

/// Errors of the framing codec, the handshake, authentication and the
/// session layer.
#[derive(Debug, Clone, PartialEq, Eq)]
pub enum CoreError {
    /// The payload could not be (de)serialised; carries the serialiser's text.
    Serialization(String),
    /// An I/O failure; carries its description.
    Io(String),
    Protocol(String),
    InvalidMessageFormat(String),
    /// A frame whose declared or actual payload length exceeds `max`.
    MessageTooLarge { size: usize, max: usize },
    Terminal(String),
    Connection(String),
    Timeout(u64),
    NotConnected,
    AlreadyConnected,
    InvalidState(String),
    ProtocolVersionMismatch { expected: u32, got: u32 },
    InvalidHandshake,
    AuthFailed,
    MissingAuthToken,
    InvalidTokenFormat,
    /// The peer (an address widened to 128 bits) is on the ban list.
    IpBanned { ip: u128 },
    RateLimitExceeded,
    CertParseError(String),
    NoDataDir,
    QrGenerationError(String),
    FingerprintMismatch { host: String, expected_fingerprint: String, got_fingerprint: String },
    NetworkError(String),
    PathNotFound(String),
    NotADirectory(String),
    PermissionDenied(String),
    VfsIoError(String),
}

} // verus!
