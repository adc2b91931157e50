//! The ping of the status phase, as a packet of its own.

use crate::error::DecodeError;
use crate::packets::Packet;
use crate::packets::PacketView;
use crate::reader::advanced;
use crate::reader::parse_i64;
use crate::reader::DataReader;
use vstd::prelude::*;

verus! {

/// A ping: the number that the client wants echoed.
#[derive(Clone, Copy, Debug, PartialEq, Eq, Structural)]
pub struct PingPacket {
    pub ping: i64,
}

/// A ping at the start of `s`.
pub open spec fn parse_ping_packet(s: Seq<u8>) -> Result<(PingPacket, nat), DecodeError> {
    match parse_i64(s) {
        Ok((ping, n)) => Ok((PingPacket { ping }, n)),
        Err(e) => Err(e),
    }
}

impl PingPacket {
    /// Reads a ping: eight bytes, a signed number in network order.
    pub fn read(reader: &mut DataReader) -> (r: Result<PingPacket, DecodeError>)
        ensures
            advanced(old(reader)@, final(reader)@, r, parse_ping_packet(old(reader)@)),
    {
        match reader.read_i64() {
            Ok(ping) => Ok(PingPacket { ping }),
            Err(e) => Err(e),
        }
    }

    /// The ping as a packet of the status phase.
    pub fn into_packet(self) -> (packet: Packet)
        ensures
            packet@ == (PacketView::Ping { ping: self.ping }),
    {
        Packet::Ping { ping: self.ping }
    }
}

} // verus!
