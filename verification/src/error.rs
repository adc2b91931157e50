//! The failures of the protocol core, grouped by the layer that raises them.

use vstd::prelude::*;

verus! {

/// Why a packet could not be decoded.
#[derive(Clone, Copy, Debug, PartialEq, Eq, Structural)]
pub enum DecodeError {
    /// A variable-length integer ended early, ran past five bytes, or held
    /// more than 32 bits.
    MalformedVarint,
    /// A field reached past the end of the buffer.
    UnexpectedEof,
    /// A field's bytes are outside what its encoding allows: a boolean other
    /// than 0 or 1, or text that is not UTF-8.
    InvalidValue,
    /// The id names no packet in the connection's current phase.
    UnknownPacketId,
}

/// Why a packet could not be encoded.
#[derive(Clone, Copy, Debug, PartialEq, Eq, Structural)]
pub enum EncodeError {
    /// The packet is one the server only receives, or one of its fields is
    /// longer than a length prefix can say.
    NotEncodable,
}

/// Why a connection is being closed.
#[derive(Clone, Copy, Debug, PartialEq, Eq, Structural)]
pub enum HandshakeError {
    /// The packet could not be decoded.
    Decode(DecodeError),
    /// The packet is not legal at this point of the connection.
    WrongStateForPacket,
    /// A handshake asked for a phase other than status or login.
    InvalidNextState,
    /// The verify token could not be decrypted or differs from the one issued.
    VerifyTokenMismatch,
    /// The shared secret could not be decrypted or is not a 128-bit key.
    DecryptionFailed,
    /// The session-verification service did not confirm the player.
    SessionVerificationRejected,
}

impl DecodeError {
    /// A short description for logs.
    pub fn describe(&self) -> (text: String)
        ensures
            text@ == self.description(),
    {
        match self {
            DecodeError::MalformedVarint => "malformed varint".to_owned(),
            DecodeError::UnexpectedEof => "unexpected end of packet".to_owned(),
            DecodeError::InvalidValue => "invalid field value".to_owned(),
            DecodeError::UnknownPacketId => "unknown packet id".to_owned(),
        }
    }

    pub open spec fn description(&self) -> Seq<char> {
        match self {
            DecodeError::MalformedVarint => "malformed varint"@,
            DecodeError::UnexpectedEof => "unexpected end of packet"@,
            DecodeError::InvalidValue => "invalid field value"@,
            DecodeError::UnknownPacketId => "unknown packet id"@,
        }
    }
}

impl HandshakeError {
    /// The reason shown to the player when the connection is closed.
    pub open spec fn reason(&self) -> Seq<char> {
        match self {
            HandshakeError::Decode(e) => e.description(),
            HandshakeError::WrongStateForPacket => "packet not allowed in this state"@,
            HandshakeError::InvalidNextState => "invalid next state"@,
            HandshakeError::VerifyTokenMismatch => "verify token mismatch"@,
            HandshakeError::DecryptionFailed => "invalid shared secret"@,
            HandshakeError::SessionVerificationRejected => "session verification rejected"@,
        }
    }

    /// The reason shown to the player when the connection is closed.
    pub fn describe(&self) -> (text: String)
        ensures
            text@ == self.reason(),
    {
        match self {
            HandshakeError::Decode(e) => e.describe(),
            HandshakeError::WrongStateForPacket => "packet not allowed in this state".to_owned(),
            HandshakeError::InvalidNextState => "invalid next state".to_owned(),
            HandshakeError::VerifyTokenMismatch => "verify token mismatch".to_owned(),
            HandshakeError::DecryptionFailed => "invalid shared secret".to_owned(),
            HandshakeError::SessionVerificationRejected => "session verification rejected".to_owned(),
        }
    }
}

} // verus!
