//! Session engine of a bidirectional TCP pipe utility.
//!
//! The crate holds the logic of the tool: expanding a port specification
//! into concrete ports, pairing resolved addresses with those ports into an
//! ordered candidate sequence, the end-of-stream framing convention on
//! receive, the local-input end-of-file policy, and the session state
//! machine that drives connection attempts and the event loop.  The
//! surrounding process performs the actual socket and console I/O and feeds
//! every outcome back into these functions as plain values.

use vstd::prelude::*;

pub mod addr;
pub mod errors;
pub mod framing;
pub mod input;
pub mod ports;
pub mod session;

verus! {

/// Address-family restriction for candidate addresses: both families,
/// IPv4 only, or IPv6 only.
#[derive(Debug, Clone, Copy, PartialEq, Eq, Structural)]
pub enum AddressType {
    IP,
    IPv4,
    IPv6,
}

/// The immutable configuration of one session, built once at startup and
/// shared by every component for the process lifetime.
#[derive(Debug, Clone)]
pub struct Config {
    /// Address-family restriction applied during resolution.
    pub addr_type: AddressType,
    /// The ordered candidate addresses the session tries.
    pub addresses: Vec<addr::CandidateAddress>,
    /// Listen for one inbound connection instead of connecting out.
    pub listen: bool,
    /// After a served peer disconnects, accept another on the same bind
    /// address instead of terminating (listen mode only).
    pub keep_listening: bool,
    /// Bytes read from the network per underlying read.
    pub input_buffer_size: usize,
    /// Bytes read from local input per underlying read.
    pub output_buffer_size: usize,
    /// Treat end-of-input on the local stream as spurious and keep reading.
    pub ignore_eof: bool,
    /// The host was already a literal address: skip name resolution.
    pub ignore_dns: bool,
}

} // verus!
