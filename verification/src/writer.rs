//! Appending typed values to a growing byte buffer.

use crate::bigendian::be_bytes;
use crate::bigendian::lemma_pow256_values;
use crate::bigendian::unsigned_of;
use crate::bytes::append_bytes;
use crate::error::EncodeError;
use crate::position::Position;
use crate::varint::encode_varint;
use crate::varint::varint_bytes;
use vstd::prelude::*;
use vstd::utf8::encode_utf8;

verus! {

/// Whether a length can stand in a length prefix.
pub open spec fn fits(len: nat) -> bool {
    len <= i32::MAX
}

/// The byte of a boolean.
pub open spec fn bool_bytes(b: bool) -> Seq<u8> {
    seq![if b { 1u8 } else { 0u8 }]
}

/// A block of raw bytes behind its length.
pub open spec fn prefixed_bytes(block: Seq<u8>) -> Seq<u8> {
    varint_bytes(block.len() as i32) + block
}

/// Text in UTF-8 behind its length in bytes.
pub open spec fn string_bytes(text: Seq<char>) -> Seq<u8> {
    prefixed_bytes(encode_utf8(text))
}

/// A block position in its packed form.
pub open spec fn position_bytes(p: Position) -> Seq<u8> {
    be_bytes(p.packed() as nat, 8)
}

/// How a write of several parts that may refuse relates its answer to the
/// buffer: it has appended `bytes` if `accepted`, and else says no more than
/// that it refused.
pub open spec fn wrote(
    before: Seq<u8>,
    after: Seq<u8>,
    answer: Result<(), EncodeError>,
    accepted: bool,
    bytes: Seq<u8>,
) -> bool {
    if accepted {
        answer == Ok::<(), EncodeError>(()) && after == before + bytes
    } else {
        answer == Err::<(), EncodeError>(EncodeError::NotEncodable)
    }
}

/// How a write that may refuse relates its answer to the buffer before and
/// after it: it appends `bytes` if `accepted`, and else changes nothing.
pub open spec fn appended(
    before: Seq<u8>,
    after: Seq<u8>,
    answer: Result<(), EncodeError>,
    accepted: bool,
    bytes: Seq<u8>,
) -> bool {
    if accepted {
        answer == Ok::<(), EncodeError>(()) && after == before + bytes
    } else {
        answer == Err::<(), EncodeError>(EncodeError::NotEncodable) && after == before
    }
}

/// A buffer that typed values are appended to. Its view is its bytes.
pub struct DataWriter {
    pub data: Vec<u8>,
}

impl View for DataWriter {
    type V = Seq<u8>;

    open spec fn view(&self) -> Seq<u8> {
        self.data@
    }
}

impl DataWriter {
    /// An empty buffer.
    pub fn new() -> (w: Self)
        ensures
            w@ == Seq::<u8>::empty(),
    {
        DataWriter { data: Vec::new() }
    }

    /// The bytes written so far.
    pub fn into_bytes(self) -> (bytes: Vec<u8>)
        ensures
            bytes@ == self@,
    {
        self.data
    }

    /// Appends the low `width` bytes of `v`, most significant first.
    fn write_be(&mut self, v: u64, width: usize)
        ensures
            final(self)@ == old(self)@ + be_bytes(v as nat, width as nat),
        decreases width,
    {
        if width > 0 {
            self.write_be(v / 256, width - 1);
            let b: u8 = (v % 256) as u8;
            assert((old(self)@ + be_bytes((v / 256) as nat, (width - 1) as nat)).push(b) == old(
                self,
            )@ + be_bytes(v as nat, width as nat));
            self.data.push(b);
        } else {
            assert(old(self)@ + be_bytes(v as nat, 0) == old(self)@);
        }
    }

    /// Appends an unsigned byte.
    pub fn write_u8(&mut self, v: u8)
        ensures
            final(self)@ == old(self)@ + seq![v],
    {
        assert(self@.push(v) == self@ + seq![v]);
        self.data.push(v);
    }

    /// Appends an unsigned number in two bytes.
    pub fn write_u16(&mut self, v: u16)
        ensures
            final(self)@ == old(self)@ + be_bytes(v as nat, 2),
    {
        self.write_be(v as u64, 2)
    }

    /// Appends an unsigned number in four bytes.
    pub fn write_u32(&mut self, v: u32)
        ensures
            final(self)@ == old(self)@ + be_bytes(v as nat, 4),
    {
        self.write_be(v as u64, 4)
    }

    /// Appends an unsigned number in eight bytes.
    pub fn write_u64(&mut self, v: u64)
        ensures
            final(self)@ == old(self)@ + be_bytes(v as nat, 8),
    {
        self.write_be(v, 8)
    }

    /// Appends a signed byte.
    pub fn write_i8(&mut self, v: i8)
        ensures
            final(self)@ == old(self)@ + be_bytes(unsigned_of(v as int, 1), 1),
    {
        proof {
            lemma_pow256_values();
        }
        let n: u64 = if v >= 0 {
            v as u64
        } else {
            (v - i8::MIN) as u64 + 0x80
        };
        self.write_be(n, 1)
    }

    /// Appends a signed number in two bytes.
    pub fn write_i16(&mut self, v: i16)
        ensures
            final(self)@ == old(self)@ + be_bytes(unsigned_of(v as int, 2), 2),
    {
        proof {
            lemma_pow256_values();
        }
        let n: u64 = if v >= 0 {
            v as u64
        } else {
            (v - i16::MIN) as u64 + 0x8000
        };
        self.write_be(n, 2)
    }

    /// Appends a signed number in four bytes.
    pub fn write_i32(&mut self, v: i32)
        ensures
            final(self)@ == old(self)@ + be_bytes(unsigned_of(v as int, 4), 4),
    {
        proof {
            lemma_pow256_values();
        }
        let n: u64 = if v >= 0 {
            v as u64
        } else {
            (v - i32::MIN) as u64 + 0x8000_0000
        };
        self.write_be(n, 4)
    }

    /// Appends a signed number in eight bytes.
    pub fn write_i64(&mut self, v: i64)
        ensures
            final(self)@ == old(self)@ + be_bytes(unsigned_of(v as int, 8), 8),
    {
        proof {
            lemma_pow256_values();
        }
        let n: u64 = if v >= 0 {
            v as u64
        } else {
            (v - i64::MIN) as u64 + 0x8000_0000_0000_0000
        };
        self.write_be(n, 8)
    }

    /// Appends a boolean.
    pub fn write_bool(&mut self, v: bool)
        ensures
            final(self)@ == old(self)@ + bool_bytes(v),
    {
        let b: u8 = if v {
            1
        } else {
            0
        };
        assert(self@.push(b) == self@ + bool_bytes(v));
        self.data.push(b);
    }

    /// Appends a variable-length 32-bit number.
    pub fn write_varint(&mut self, v: i32)
        ensures
            final(self)@ == old(self)@ + varint_bytes(v),
    {
        encode_varint(v, &mut self.data)
    }

    /// Appends raw bytes, with no length before them.
    pub fn write_data(&mut self, bytes: &[u8])
        ensures
            final(self)@ == old(self)@ + bytes@,
    {
        append_bytes(&mut self.data, bytes)
    }

    /// Appends a length, or refuses one that does not fit its prefix.
    pub fn write_len(&mut self, len: usize) -> (r: Result<(), EncodeError>)
        ensures
            appended(old(self)@, final(self)@, r, fits(len as nat), varint_bytes(len as i32)),
    {
        if len > 0x7fff_ffff {
            assert(self@ == old(self)@);
            return Err(EncodeError::NotEncodable);
        }
        self.write_varint(len as i32);
        Ok(())
    }

    /// Appends raw bytes behind their length.
    pub fn write_prefixed(&mut self, bytes: &[u8]) -> (r: Result<(), EncodeError>)
        ensures
            appended(old(self)@, final(self)@, r, fits(bytes@.len()), prefixed_bytes(bytes@)),
    {
        match self.write_len(bytes.len()) {
            Ok(()) => {
                self.write_data(bytes);
                assert(self@ == old(self)@ + prefixed_bytes(bytes@));
                Ok(())
            },
            Err(e) => Err(e),
        }
    }

    /// Appends text in UTF-8 behind its length in bytes.
    pub fn write_string(&mut self, text: &str) -> (r: Result<(), EncodeError>)
        ensures
            appended(
                old(self)@,
                final(self)@,
                r,
                fits(encode_utf8(text@).len()),
                string_bytes(text@),
            ),
    {
        self.write_prefixed(text.as_bytes())
    }

    /// Appends a block position in its packed form.
    pub fn write_position(&mut self, p: &Position)
        ensures
            final(self)@ == old(self)@ + position_bytes(*p),
    {
        self.write_be(p.pack(), 8)
    }
}

} // verus!
