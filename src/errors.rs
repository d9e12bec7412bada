//! Error kinds of the protocol layer and of the server around it.
use vstd::prelude::*;

verus! {

/// Errors of the frame codec and of the session state machines.
#[derive(Clone, Copy, Debug, PartialEq, Eq, Structural)]
pub enum LlsdError {
    /// Composite fallback for a handshake that did not complete.
    HandshakeFailed,
    /// The server's Ready box did not hold the expected literal.
    InvalidReadyFrame,
    /// A box did not verify.
    DecryptionFailed,
    /// The client's Hello box did not hold 256 bytes.
    InvalidHelloFrame,
    /// The server's Welcome box did not hold a public key.
    InvalidWelcomeFrame,
    /// The client's Initiate box was malformed or its vouch did not verify.
    InvalidInitiateFrame,
    /// A frame arrived in the wrong state, or for no session.
    InvalidSessionState,
    /// The decoder needs more bytes.
    IncompleteFrame,
    /// A header was malformed or a kind was unknown.
    BadFrame,
    /// The session's lifetime is exhausted.
    ExpiredSession,
}

/// Errors of the server: protocol errors and those of the dispatcher and
/// handlers.
#[derive(Clone, Copy, Debug, PartialEq, Eq, Structural)]
pub enum AWError {
    /// A protocol error.
    LlsdError(LlsdError),
    /// No handler for the request.
    NotImplemented,
    /// The server could not complete the request.
    ServerFault,
    /// A routed message did not start with an 8-byte route key.
    InvalidRoute,
    /// No session, or a client that the authenticator refused.
    SessionNotFound,
}

/// Result type of the protocol layer.
pub type LlsdResult<T> = Result<T, LlsdError>;

/// Result type of the server.
pub type AWResult<T> = Result<T, AWError>;

} // verus!
