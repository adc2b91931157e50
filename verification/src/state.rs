//! The protocol phase of one connection.

use vstd::prelude::*;

verus! {

/// The phase a connection is in. It selects the packet-id namespace used for
/// decoding and only ever moves forward.
#[derive(Clone, Copy, Debug, PartialEq, Eq, Structural)]
pub enum ConnectionState {
    Handshaking,
    Status,
    Login,
    Play,
}

impl ConnectionState {
    /// Position of the phase along the connection's life: a connection never
    /// moves to a phase of lower rank.
    pub open spec fn rank(self) -> nat {
        match self {
            ConnectionState::Handshaking => 0,
            ConnectionState::Status => 1,
            ConnectionState::Login => 1,
            ConnectionState::Play => 2,
        }
    }

    /// The phase every connection starts in.
    pub fn initial() -> (s: ConnectionState)
        ensures
            s == ConnectionState::Handshaking,
    {
        ConnectionState::Handshaking
    }
}

} // verus!
