//! Error taxonomy of the session engine.
//!
//! Per-candidate resolution and connect failures are recovered by advancing
//! to the next candidate; send and receive failures on an established
//! connection tear that connection down and re-enter candidate iteration;
//! channel failures and exhaustion of all candidates are fatal.

use vstd::prelude::*;

verus! {

/// Failure to turn a host and port specification into candidate addresses.
#[derive(Debug, Clone, PartialEq, Eq)]
pub enum ResolutionError {
    /// Name resolution yielded no addresses at all.
    NoAddresses,
    /// Addresses were resolved, but none matched the requested family.
    FamilyMismatch,
    /// The port specification expanded to no usable ports.
    NoPorts,
}

/// Failure of one outbound connection attempt.
#[derive(Debug, Clone, PartialEq, Eq)]
pub enum ConnectError {
    Refused,
    Timeout,
    Other(String),
}

/// Failure to bind the listening socket or to accept the one inbound peer.
#[derive(Debug, Clone, PartialEq, Eq)]
pub enum ListenError {
    BindFailed(String),
    AcceptFailed(String),
}

/// Failure of a framed receive on an established connection.
#[derive(Debug, Clone, PartialEq, Eq)]
pub enum ReceiveError {
    /// The peer closed the connection (a zero-length read).
    PeerClosed,
    Other(String),
}

/// Failure of a send on an established connection.
#[derive(Debug, Clone, PartialEq, Eq)]
pub enum SendError {
    BrokenPipe,
    Other(String),
}

/// Failure of the event channel itself: a producer or the consumer is gone,
/// which means a task crashed.  Always fatal to the session.
#[derive(Debug, Clone, PartialEq, Eq)]
pub enum ChannelError {
    Disconnected,
}

/// The union of everything that can go wrong during a session; the fatal
/// cases surface to the caller as the session result.
#[derive(Debug, Clone, PartialEq, Eq)]
pub enum SessionError {
    Resolution(ResolutionError),
    Connect(ConnectError),
    Listen(ListenError),
    Receive(ReceiveError),
    Send(SendError),
    Channel(ChannelError),
}

impl SessionError {
    /// True of the errors that make the current connection unusable: every
    /// send or receive failure on an established connection.  The session
    /// recovers from them by tearing the connection down and re-entering
    /// candidate iteration.
    pub open spec fn connection_fatal(self) -> bool {
        self is Receive || self is Send
    }

    /// True of the errors that end the whole session at once: a broken
    /// event channel means a task crashed and nothing more can be delivered.
    pub open spec fn session_fatal(self) -> bool {
        self is Channel
    }

    /// Runtime test matching [`Self::connection_fatal`].
    pub fn is_connection_fatal(&self) -> (r: bool)
        ensures
            r == self.connection_fatal(),
    {
        match self {
            SessionError::Receive(_) => true,
            SessionError::Send(_) => true,
            _ => false,
        }
    }

    /// Runtime test matching [`Self::session_fatal`].
    pub fn is_session_fatal(&self) -> (r: bool)
        ensures
            r == self.session_fatal(),
    {
        match self {
            SessionError::Channel(_) => true,
            _ => false,
        }
    }
}

} // verus!
