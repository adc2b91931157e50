//! Reading typed values off the front of a byte buffer.
//!
//! Every read either succeeds and moves past the bytes it took, or fails
//! and leaves the reader where it was.

use crate::bigendian::be_value;
use crate::bigendian::lemma_be_value_bound;
use crate::bigendian::lemma_be_value_push;
use crate::bigendian::lemma_pow256_monotonic;
use crate::bigendian::lemma_pow256_values;
use crate::bigendian::pow256;
use crate::bigendian::signed_of;
use crate::error::DecodeError;
use crate::position::Position;
use crate::varint::decode_varint;
use crate::varint::parse_varint;
use vstd::prelude::*;
use vstd::slice::slice_subrange;
use vstd::slice::slice_to_vec;
use vstd::utf8::decode_utf8;
use vstd::utf8::valid_utf8;

verus! {

/// An unsigned number of `width` bytes at the start of `s`.
pub open spec fn parse_uint(s: Seq<u8>, width: nat) -> Result<(nat, nat), DecodeError> {
    if s.len() < width {
        Err(DecodeError::UnexpectedEof)
    } else {
        Ok((be_value(s.take(width as int)), width))
    }
}

/// A signed number of `width` bytes at the start of `s`.
pub open spec fn parse_int(s: Seq<u8>, width: nat) -> Result<(int, nat), DecodeError> {
    match parse_uint(s, width) {
        Ok((n, k)) => Ok((signed_of(n, width), k)),
        Err(e) => Err(e),
    }
}

/// An unsigned byte.
pub open spec fn parse_u8(s: Seq<u8>) -> Result<(u8, nat), DecodeError> {
    match parse_uint(s, 1) {
        Ok((n, k)) => Ok((n as u8, k)),
        Err(e) => Err(e),
    }
}

/// An unsigned number of two bytes.
pub open spec fn parse_u16(s: Seq<u8>) -> Result<(u16, nat), DecodeError> {
    match parse_uint(s, 2) {
        Ok((n, k)) => Ok((n as u16, k)),
        Err(e) => Err(e),
    }
}

/// An unsigned number of four bytes.
pub open spec fn parse_u32(s: Seq<u8>) -> Result<(u32, nat), DecodeError> {
    match parse_uint(s, 4) {
        Ok((n, k)) => Ok((n as u32, k)),
        Err(e) => Err(e),
    }
}

/// An unsigned number of eight bytes.
pub open spec fn parse_u64(s: Seq<u8>) -> Result<(u64, nat), DecodeError> {
    match parse_uint(s, 8) {
        Ok((n, k)) => Ok((n as u64, k)),
        Err(e) => Err(e),
    }
}

/// A signed byte.
pub open spec fn parse_i8(s: Seq<u8>) -> Result<(i8, nat), DecodeError> {
    match parse_int(s, 1) {
        Ok((n, k)) => Ok((n as i8, k)),
        Err(e) => Err(e),
    }
}

/// A signed number of two bytes.
pub open spec fn parse_i16(s: Seq<u8>) -> Result<(i16, nat), DecodeError> {
    match parse_int(s, 2) {
        Ok((n, k)) => Ok((n as i16, k)),
        Err(e) => Err(e),
    }
}

/// A signed number of four bytes.
pub open spec fn parse_i32(s: Seq<u8>) -> Result<(i32, nat), DecodeError> {
    match parse_int(s, 4) {
        Ok((n, k)) => Ok((n as i32, k)),
        Err(e) => Err(e),
    }
}

/// A signed number of eight bytes.
pub open spec fn parse_i64(s: Seq<u8>) -> Result<(i64, nat), DecodeError> {
    match parse_int(s, 8) {
        Ok((n, k)) => Ok((n as i64, k)),
        Err(e) => Err(e),
    }
}

/// A boolean: one byte, 0 or 1.
pub open spec fn parse_bool(s: Seq<u8>) -> Result<(bool, nat), DecodeError> {
    if s.len() < 1 {
        Err(DecodeError::UnexpectedEof)
    } else if s[0] == 0 {
        Ok((false, 1))
    } else if s[0] == 1 {
        Ok((true, 1))
    } else {
        Err(DecodeError::InvalidValue)
    }
}

/// A block of `len` raw bytes.
pub open spec fn parse_bytes(s: Seq<u8>, len: nat) -> Result<(Seq<u8>, nat), DecodeError> {
    if s.len() < len {
        Err(DecodeError::UnexpectedEof)
    } else {
        Ok((s.take(len as int), len))
    }
}

/// A block of raw bytes behind its length. A length that is negative or
/// reaches past the end of `s` names bytes that are not there.
pub open spec fn parse_prefixed(s: Seq<u8>) -> Result<(Seq<u8>, nat), DecodeError> {
    match parse_varint(s) {
        Ok((n, k)) => if n < 0 || s.len() - k < n {
            Err(DecodeError::UnexpectedEof)
        } else {
            Ok((s.subrange(k as int, k + n), (k + n) as nat))
        },
        Err(e) => Err(e),
    }
}

/// UTF-8 text behind its length in bytes.
pub open spec fn parse_string(s: Seq<u8>) -> Result<(Seq<char>, nat), DecodeError> {
    match parse_prefixed(s) {
        Ok((bytes, k)) => if valid_utf8(bytes) {
            Ok((decode_utf8(bytes), k))
        } else {
            Err(DecodeError::InvalidValue)
        },
        Err(e) => Err(e),
    }
}

/// A packed block position.
pub open spec fn parse_position(s: Seq<u8>) -> Result<(Position, nat), DecodeError> {
    match parse_uint(s, 8) {
        Ok((n, k)) => Ok((Position::unpacked(n as u64), k)),
        Err(e) => Err(e),
    }
}

/// How a read that should find `expected` relates what it returns to the
/// bytes left before and after it.
pub open spec fn advanced<T>(
    before: Seq<u8>,
    after: Seq<u8>,
    got: Result<T, DecodeError>,
    expected: Result<(T, nat), DecodeError>,
) -> bool {
    match expected {
        Ok((v, n)) => got == Ok::<T, DecodeError>(v) && n <= before.len() && after == before.skip(
            n as int,
        ),
        Err(e) => got == Err::<T, DecodeError>(e) && after == before,
    }
}

/// The same for a value that is known by its view.
pub open spec fn advanced_view<T: View>(
    before: Seq<u8>,
    after: Seq<u8>,
    got: Result<T, DecodeError>,
    expected: Result<(T::V, nat), DecodeError>,
) -> bool {
    match expected {
        Ok((v, n)) => (match got {
            Ok(x) => x@ == v,
            Err(_) => false,
        }) && n <= before.len() && after == before.skip(n as int),
        Err(e) => got == Err::<T, DecodeError>(e) && after == before,
    }
}

/// `String::from_utf8` of std: the text that `bytes` spell in UTF-8, and
/// nothing where they are not UTF-8.
#[verifier::external_body]
fn text_from_utf8(bytes: Vec<u8>) -> (text: Option<String>)
    ensures
        text.is_some() == valid_utf8(bytes@),
        text.is_some() ==> text.unwrap()@ == decode_utf8(bytes@),
{
    String::from_utf8(bytes).ok()
}

/// A cursor over a borrowed buffer. Its view is the bytes not yet read.
#[derive(Clone, Copy)]
pub struct DataReader<'a> {
    data: &'a [u8],
    pos: usize,
}

impl<'a> View for DataReader<'a> {
    type V = Seq<u8>;

    closed spec fn view(&self) -> Seq<u8> {
        self.data@.skip(self.pos as int)
    }
}

impl<'a> DataReader<'a> {
    #[verifier::type_invariant]
    /// The cursor stands within the buffer.
    spec fn within(self) -> bool {
        self.pos <= self.data@.len()
    }

    /// A reader at the start of `data`.
    pub fn new(data: &'a [u8]) -> (r: Self)
        ensures
            r@ == data@,
    {
        DataReader { data, pos: 0 }
    }

    /// The number of bytes not yet read.
    pub fn remaining(&self) -> (n: usize)
        ensures
            n == self@.len(),
    {
        proof {
            use_type_invariant(self);
        }
        self.data.len() - self.pos
    }

    /// Reads an unsigned number of `width` bytes, most significant first.
    fn read_be(&mut self, width: usize) -> (r: Result<u64, DecodeError>)
        requires
            1 <= width <= 8,
        ensures
            match parse_uint(old(self)@, width as nat) {
                Ok((n, k)) => r == Ok::<u64, DecodeError>(n as u64) && n < pow256(width as nat) && k
                    <= old(self)@.len() && final(self)@ == old(self)@.skip(k as int),
                Err(e) => r == Err::<u64, DecodeError>(e) && final(self)@ == old(self)@,
            },
    {
        proof {
            use_type_invariant(&*self);
        }
        if self.data.len() - self.pos < width {
            return Err(DecodeError::UnexpectedEof);
        }
        let ghost s = self@;
        let mut acc: u64 = 0;
        let mut i: usize = 0;
        while i < width
            invariant
                i <= width <= 8,
                self.pos + width <= self.data@.len() <= usize::MAX,
                s == self.data@.skip(self.pos as int),
                acc == be_value(s.take(i as int)),
            decreases width - i,
        {
            let b: u8 = self.data[self.pos + i];
            proof {
                lemma_be_value_bound(s.take(i as int));
                lemma_pow256_monotonic(i as nat, 7);
                lemma_pow256_values();
                assert(s.take(i + 1) == s.take(i as int).push(b));
                lemma_be_value_push(s.take(i as int), b);
            }
            acc = acc * 256 + b as u64;
            i = i + 1;
        }
        proof {
            lemma_be_value_bound(s.take(width as int));
            assert(self.data@.skip(self.pos + width) == s.skip(width as int));
        }
        self.pos = self.pos + width;
        Ok(acc)
    }

    /// Reads an unsigned byte.
    pub fn read_u8(&mut self) -> (r: Result<u8, DecodeError>)
        ensures
            advanced(old(self)@, final(self)@, r, parse_u8(old(self)@)),
    {
        proof {
            lemma_pow256_values();
        }
        match self.read_be(1) {
            Ok(n) => Ok(n as u8),
            Err(e) => Err(e),
        }
    }

    /// Reads an unsigned number of two bytes.
    pub fn read_u16(&mut self) -> (r: Result<u16, DecodeError>)
        ensures
            advanced(old(self)@, final(self)@, r, parse_u16(old(self)@)),
    {
        proof {
            lemma_pow256_values();
        }
        match self.read_be(2) {
            Ok(n) => Ok(n as u16),
            Err(e) => Err(e),
        }
    }

    /// Reads an unsigned number of four bytes.
    pub fn read_u32(&mut self) -> (r: Result<u32, DecodeError>)
        ensures
            advanced(old(self)@, final(self)@, r, parse_u32(old(self)@)),
    {
        proof {
            lemma_pow256_values();
        }
        match self.read_be(4) {
            Ok(n) => Ok(n as u32),
            Err(e) => Err(e),
        }
    }

    /// Reads an unsigned number of eight bytes.
    pub fn read_u64(&mut self) -> (r: Result<u64, DecodeError>)
        ensures
            advanced(old(self)@, final(self)@, r, parse_u64(old(self)@)),
    {
        proof {
            lemma_pow256_values();
        }
        self.read_be(8)
    }

    /// Reads a signed byte.
    pub fn read_i8(&mut self) -> (r: Result<i8, DecodeError>)
        ensures
            advanced(old(self)@, final(self)@, r, parse_i8(old(self)@)),
    {
        proof {
            lemma_pow256_values();
        }
        match self.read_be(1) {
            Ok(n) => Ok(
                if n < 0x80 {
                    n as i8
                } else {
                    ((n - 0x80) as i8) + i8::MIN
                },
            ),
            Err(e) => Err(e),
        }
    }

    /// Reads a signed number of two bytes.
    pub fn read_i16(&mut self) -> (r: Result<i16, DecodeError>)
        ensures
            advanced(old(self)@, final(self)@, r, parse_i16(old(self)@)),
    {
        proof {
            lemma_pow256_values();
        }
        match self.read_be(2) {
            Ok(n) => Ok(
                if n < 0x8000 {
                    n as i16
                } else {
                    ((n - 0x8000) as i16) + i16::MIN
                },
            ),
            Err(e) => Err(e),
        }
    }

    /// Reads a signed number of four bytes.
    pub fn read_i32(&mut self) -> (r: Result<i32, DecodeError>)
        ensures
            advanced(old(self)@, final(self)@, r, parse_i32(old(self)@)),
    {
        proof {
            lemma_pow256_values();
        }
        match self.read_be(4) {
            Ok(n) => Ok(
                if n < 0x8000_0000 {
                    n as i32
                } else {
                    ((n - 0x8000_0000) as i32) + i32::MIN
                },
            ),
            Err(e) => Err(e),
        }
    }

    /// Reads a signed number of eight bytes.
    pub fn read_i64(&mut self) -> (r: Result<i64, DecodeError>)
        ensures
            advanced(old(self)@, final(self)@, r, parse_i64(old(self)@)),
    {
        proof {
            lemma_pow256_values();
        }
        match self.read_be(8) {
            Ok(n) => Ok(
                if n < 0x8000_0000_0000_0000 {
                    n as i64
                } else {
                    ((n - 0x8000_0000_0000_0000) as i64) + i64::MIN
                },
            ),
            Err(e) => Err(e),
        }
    }

    /// Reads a boolean.
    pub fn read_bool(&mut self) -> (r: Result<bool, DecodeError>)
        ensures
            advanced(old(self)@, final(self)@, r, parse_bool(old(self)@)),
    {
        proof {
            use_type_invariant(&*self);
        }
        if self.data.len() - self.pos < 1 {
            return Err(DecodeError::UnexpectedEof);
        }
        let b: u8 = self.data[self.pos];
        if b > 1 {
            return Err(DecodeError::InvalidValue);
        }
        proof {
            assert(self.data@.skip(self.pos + 1) == self@.skip(1));
        }
        self.pos = self.pos + 1;
        Ok(b == 1)
    }

    /// Reads a variable-length 32-bit number.
    pub fn read_varint(&mut self) -> (r: Result<i32, DecodeError>)
        ensures
            advanced(old(self)@, final(self)@, r, parse_varint(old(self)@)),
    {
        proof {
            use_type_invariant(&*self);
        }
        match decode_varint(self.data, self.pos) {
            Ok((v, next)) => {
                proof {
                    assert(self.data@.skip(next as int) == self@.skip(next - self.pos));
                }
                self.pos = next;
                Ok(v)
            },
            Err(e) => Err(e),
        }
    }

    /// Reads `len` raw bytes.
    pub fn read_data_fixed(&mut self, len: usize) -> (r: Result<Vec<u8>, DecodeError>)
        ensures
            advanced_view(old(self)@, final(self)@, r, parse_bytes(old(self)@, len as nat)),
    {
        proof {
            use_type_invariant(&*self);
        }
        if self.data.len() - self.pos < len {
            return Err(DecodeError::UnexpectedEof);
        }
        let block = slice_to_vec(slice_subrange(self.data, self.pos, self.pos + len));
        proof {
            assert(block@ == self@.take(len as int));
            assert(self.data@.skip(self.pos + len) == self@.skip(len as int));
        }
        self.pos = self.pos + len;
        Ok(block)
    }

    /// Reads a length and then that many raw bytes.
    pub fn read_data(&mut self) -> (r: Result<Vec<u8>, DecodeError>)
        ensures
            advanced_view(old(self)@, final(self)@, r, parse_prefixed(old(self)@)),
    {
        let start = *self;
        let len: i32 = match self.read_varint() {
            Ok(n) => n,
            Err(e) => {
                return Err(e);
            },
        };
        if len < 0 {
            *self = start;
            return Err(DecodeError::UnexpectedEof);
        }
        let ghost mid = self@;
        match self.read_data_fixed(len as usize) {
            Ok(block) => {
                proof {
                    let s = start@;
                    let k = (s.len() - mid.len()) as int;
                    assert(mid.take(len as int) == s.subrange(k, k + len));
                    assert(mid.skip(len as int) == s.skip(k + len));
                }
                Ok(block)
            },
            Err(e) => {
                *self = start;
                Err(e)
            },
        }
    }

    /// Reads text behind its length in bytes.
    pub fn read_string(&mut self) -> (r: Result<String, DecodeError>)
        ensures
            advanced_view(old(self)@, final(self)@, r, parse_string(old(self)@)),
    {
        let start = *self;
        match self.read_data() {
            Ok(bytes) => match text_from_utf8(bytes) {
                Some(text) => Ok(text),
                None => {
                    *self = start;
                    Err(DecodeError::InvalidValue)
                },
            },
            Err(e) => Err(e),
        }
    }

    /// Reads a packed block position.
    pub fn read_position(&mut self) -> (r: Result<Position, DecodeError>)
        ensures
            advanced(old(self)@, final(self)@, r, parse_position(old(self)@)),
    {
        match self.read_be(8) {
            Ok(n) => Ok(Position::unpack(n)),
            Err(e) => Err(e),
        }
    }
}

} // verus!
