//! Errors of the transport and of a session.
use vstd::prelude::*;

use crate::error::{error_message, Error};
use crate::text::{decimal, push_decimal};

verus! {

/// What can go wrong in a session.
#[derive(Debug)]
pub enum TransportError {
    /// The socket failed; the text says how.
    Io(String),
    /// The peer did not answer in time.
    Timeout,
    /// The transport is closed.
    Closed,
    /// The destination buffer is too small.
    BufferTooSmall { needed: usize, have: usize },
    /// A packet or payload could not be encoded or decoded.
    Protocol(Error),
    /// The handshake failed.
    Handshake(&'static str),
    /// The session state does not admit the operation.
    InvalidState(&'static str),
    /// The peer closed the session.
    PeerClosed(&'static str),
    /// A proof of the handshake did not match.
    AuthenticationFailed(&'static str),
}

/// The stable number of each error.
pub open spec fn transport_error_code(e: TransportError) -> int {
    match e {
        TransportError::Io(_) => -1,
        TransportError::Timeout => -2,
        TransportError::Closed => -3,
        TransportError::BufferTooSmall { .. } => -4,
        TransportError::Protocol(_) => -5,
        TransportError::Handshake(_) => -6,
        TransportError::InvalidState(_) => -7,
        TransportError::PeerClosed(_) => -8,
        TransportError::AuthenticationFailed(_) => -9,
    }
}

/// What each error says.
pub open spec fn transport_error_message(e: TransportError) -> Seq<char> {
    match e {
        TransportError::Io(text) => "I/O error: "@ + text@,
        TransportError::Timeout => "operation timed out"@,
        TransportError::Closed => "transport is closed"@,
        TransportError::BufferTooSmall { needed, have } => "buffer too small: need "@ + decimal(
            needed as nat,
        ) + ", have "@ + decimal(have as nat),
        TransportError::Protocol(inner) => "protocol error: "@ + error_message(inner),
        TransportError::Handshake(text) => "handshake failed: "@ + text@,
        TransportError::InvalidState(text) => "invalid state: "@ + text@,
        TransportError::PeerClosed(text) => "peer closed session: "@ + text@,
        TransportError::AuthenticationFailed(text) => "handshake authentication failed: "@ + text@,
    }
}

impl TransportError {
    /// The stable number of this error.
    pub fn code(&self) -> (r: i32)
        ensures
            r == transport_error_code(*self),
    {
        match self {
            TransportError::Io(_) => -1,
            TransportError::Timeout => -2,
            TransportError::Closed => -3,
            TransportError::BufferTooSmall { .. } => -4,
            TransportError::Protocol(_) => -5,
            TransportError::Handshake(_) => -6,
            TransportError::InvalidState(_) => -7,
            TransportError::PeerClosed(_) => -8,
            TransportError::AuthenticationFailed(_) => -9,
        }
    }

    /// What this error says.
    pub fn message(&self) -> (r: String)
        ensures
            r@ == transport_error_message(*self),
    {
        match self {
            TransportError::Io(text) => "I/O error: ".to_owned().concat(text.as_str()),
            TransportError::Timeout => "operation timed out".to_owned(),
            TransportError::Closed => "transport is closed".to_owned(),
            TransportError::BufferTooSmall { needed, have } => {
                let mut s: String = "buffer too small: need ".to_owned();
                push_decimal(&mut s, *needed as u64);
                s.append(", have ");
                push_decimal(&mut s, *have as u64);
                s
            },
            TransportError::Protocol(inner) => "protocol error: ".to_owned().concat(
                inner.message().as_str(),
            ),
            TransportError::Handshake(text) => "handshake failed: ".to_owned().concat(text),
            TransportError::InvalidState(text) => "invalid state: ".to_owned().concat(text),
            TransportError::PeerClosed(text) => "peer closed session: ".to_owned().concat(text),
            TransportError::AuthenticationFailed(text) =>
                "handshake authentication failed: ".to_owned().concat(text),
        }
    }
}

/// The numbers of the errors count down from -1, one for each kind.
pub proof fn transport_errors_are_numbered(
    text: String,
    why: &'static str,
    inner: Error,
    needed: usize,
    have: usize,
)
    ensures
        transport_error_code(TransportError::Io(text)) == -1,
        transport_error_code(TransportError::Timeout) == -2,
        transport_error_code(TransportError::Closed) == -3,
        transport_error_code(TransportError::BufferTooSmall { needed, have }) == -4,
        transport_error_code(TransportError::Protocol(inner)) == -5,
        transport_error_code(TransportError::Handshake(why)) == -6,
        transport_error_code(TransportError::InvalidState(why)) == -7,
        transport_error_code(TransportError::PeerClosed(why)) == -8,
        transport_error_code(TransportError::AuthenticationFailed(why)) == -9,
{
}

/// What an error says: what kind it is, and then what is known of it.
pub proof fn transport_errors_say_what_is_known(
    text: String,
    why: &'static str,
    inner: Error,
    needed: usize,
    have: usize,
)
    ensures
        transport_error_message(TransportError::Io(text)) == "I/O error: "@ + text@,
        transport_error_message(TransportError::Protocol(inner)) == "protocol error: "@
            + error_message(inner),
        transport_error_message(TransportError::Handshake(why)) == "handshake failed: "@ + why@,
        transport_error_message(TransportError::InvalidState(why)) == "invalid state: "@ + why@,
        transport_error_message(TransportError::PeerClosed(why)) == "peer closed session: "@ + why@,
        transport_error_message(TransportError::AuthenticationFailed(why))
            == "handshake authentication failed: "@ + why@,
        transport_error_message(TransportError::BufferTooSmall { needed, have })
            == "buffer too small: need "@ + decimal(needed as nat) + ", have "@ + decimal(
            have as nat,
        ),
{
}

} // verus!
