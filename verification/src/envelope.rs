//! The envelope that a packet travels in: the length of what follows, then
//! the packet's id and its payload.

use crate::error::DecodeError;
use crate::error::EncodeError;
use crate::login_handler::RawPacket;
use crate::login_handler::RawView;
use crate::reader::parse_prefixed;
use crate::reader::DataReader;
use crate::varint::parse_varint;
use crate::writer::fits;
use crate::writer::prefixed_bytes;
use crate::writer::DataWriter;
use vstd::prelude::*;

verus! {

/// What the bytes that have arrived start with.
#[derive(Clone, Debug, PartialEq, Eq)]
pub enum Envelope {
    /// The start of an envelope; more bytes have to arrive.
    Incomplete,
    /// No envelope: its length or the id in it cannot be read.
    Malformed,
    /// A whole envelope of `used` bytes, and the packet in it.
    Packet { raw: RawPacket, used: usize },
}

/// What an envelope is known by in contracts.
pub enum EnvelopeView {
    Incomplete,
    Malformed,
    Packet { raw: RawView, used: nat },
}

impl View for Envelope {
    type V = EnvelopeView;

    open spec fn view(&self) -> EnvelopeView {
        match *self {
            Envelope::Incomplete => EnvelopeView::Incomplete,
            Envelope::Malformed => EnvelopeView::Malformed,
            Envelope::Packet { raw, used } => EnvelopeView::Packet { raw: raw@, used: used as nat },
        }
    }
}

/// Whether the bytes start with a length below zero.
pub open spec fn length_is_negative(s: Seq<u8>) -> bool {
    match parse_varint(s) {
        Ok((n, _)) => n < 0,
        Err(_) => false,
    }
}

/// What the bytes start with. A length that ends early may still be
/// completed while fewer than five bytes are there; a body that ends early
/// may be completed unless its length is below zero.
pub open spec fn parse_envelope(s: Seq<u8>) -> EnvelopeView {
    match parse_prefixed(s) {
        Ok((body, used)) => match parse_varint(body) {
            Ok((id, k)) => EnvelopeView::Packet {
                raw: RawView { id, data: body.skip(k as int) },
                used,
            },
            Err(_) => EnvelopeView::Malformed,
        },
        Err(DecodeError::MalformedVarint) => if s.len() < 5 {
            EnvelopeView::Incomplete
        } else {
            EnvelopeView::Malformed
        },
        Err(DecodeError::UnexpectedEof) => if length_is_negative(s) {
            EnvelopeView::Malformed
        } else {
            EnvelopeView::Incomplete
        },
        Err(_) => EnvelopeView::Malformed,
    }
}

/// Takes the first envelope off the bytes that have arrived.
pub fn first_packet(bytes: &[u8]) -> (envelope: Envelope)
    ensures
        envelope@ == parse_envelope(bytes@),
{
    let mut reader = DataReader::new(bytes);
    match reader.read_data() {
        Ok(body) => {
            let used = bytes.len() - reader.remaining();
            let mut inner = DataReader::new(body.as_slice());
            match inner.read_varint() {
                Ok(id) => {
                    let rest = inner.remaining();
                    match inner.read_data_fixed(rest) {
                        Ok(data) => {
                            assert(data@ == body@.skip(body@.len() - rest));
                            Envelope::Packet { raw: RawPacket { id, data }, used }
                        },
                        Err(_) => Envelope::Malformed,
                    }
                },
                Err(_) => Envelope::Malformed,
            }
        },
        Err(DecodeError::MalformedVarint) => {
            if bytes.len() < 5 {
                Envelope::Incomplete
            } else {
                Envelope::Malformed
            }
        },
        Err(DecodeError::UnexpectedEof) => {
            match reader.read_varint() {
                Ok(length) => if length < 0 {
                    Envelope::Malformed
                } else {
                    Envelope::Incomplete
                },
                Err(_) => Envelope::Incomplete,
            }
        },
        Err(_) => Envelope::Malformed,
    }
}

/// Puts the bytes of a packet into their envelope. A packet too long for
/// the length before it is refused.
pub fn seal(body: &[u8]) -> (r: Result<Vec<u8>, EncodeError>)
    ensures
        match r {
            Ok(sealed) => fits(body@.len()) && sealed@ == prefixed_bytes(body@),
            Err(e) => !fits(body@.len()) && e == EncodeError::NotEncodable,
        },
{
    let mut writer = DataWriter::new();
    match writer.write_prefixed(body) {
        Ok(()) => {
            assert(writer@ == prefixed_bytes(body@));
            Ok(writer.into_bytes())
        },
        Err(e) => Err(e),
    }
}

} // verus!
