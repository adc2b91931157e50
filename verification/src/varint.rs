//! Variable-length integers: seven payload bits per byte, least significant
//! group first, the high bit of a byte set when another byte follows. A
//! 32-bit value takes one to five bytes; negative values travel as their
//! unsigned two's-complement reading.

use crate::error::DecodeError;
use vstd::prelude::*;

verus! {

/// The most bytes a 32-bit value may occupy.
pub const MAX_LEN: usize = 5;

/// The weight of the payload of byte `i`: 128 to the power `i`.
pub open spec fn weight(i: nat) -> nat
    decreases i,
{
    if i == 0 {
        1
    } else {
        128 * weight((i - 1) as nat)
    }
}

/// The unsigned reading of a 32-bit two's-complement value.
pub open spec fn as_unsigned(v: i32) -> nat {
    if v >= 0 {
        v as nat
    } else {
        (v + 0x1_0000_0000) as nat
    }
}

/// The signed reading of an unsigned 32-bit value.
pub open spec fn as_signed(n: nat) -> i32
    recommends
        n < 0x1_0000_0000,
{
    if n < 0x8000_0000 {
        n as i32
    } else {
        (n - 0x1_0000_0000) as i32
    }
}

/// The shortest encoding of an unsigned number.
pub open spec fn unsigned_bytes(n: nat) -> Seq<u8>
    decreases n,
{
    if n < 128 {
        seq![n as u8]
    } else {
        seq![(n % 128 + 128) as u8] + unsigned_bytes(n / 128)
    }
}

/// The bytes written for a 32-bit value.
pub open spec fn varint_bytes(v: i32) -> Seq<u8> {
    unsigned_bytes(as_unsigned(v))
}

/// The number of bytes, counted from the start of `s`, up to and including
/// the first byte at or after index `i` that has no continuation flag, if
/// one stands among the first five bytes.
pub open spec fn encoded_len(s: Seq<u8>, i: nat) -> Option<nat>
    decreases MAX_LEN - i,
{
    if i >= MAX_LEN || i >= s.len() {
        None
    } else if s[i as int] < 128 {
        Some(i + 1)
    } else {
        encoded_len(s, i + 1)
    }
}

/// The number held by the payload bits of the first `n` bytes of `s`.
pub open spec fn payload(s: Seq<u8>, n: nat) -> nat
    decreases n,
{
    if n == 0 {
        0
    } else {
        payload(s, (n - 1) as nat) + (s[n - 1] % 128) as nat * weight((n - 1) as nat)
    }
}

/// What reading a 32-bit value from the start of `s` gives: the value and the
/// number of bytes it took.
pub open spec fn parse_varint(s: Seq<u8>) -> Result<(i32, nat), DecodeError> {
    match encoded_len(s, 0) {
        Some(n) => if payload(s, n) < 0x1_0000_0000 {
            Ok((as_signed(payload(s, n)), n))
        } else {
            Err(DecodeError::MalformedVarint)
        },
        None => Err(DecodeError::MalformedVarint),
    }
}

/// The weights of the five bytes, and of a sixth.
pub proof fn lemma_weight_values()
    ensures
        weight(0) == 1,
        weight(1) == 128,
        weight(2) == 16384,
        weight(3) == 2097152,
        weight(4) == 268435456,
        weight(5) == 34359738368,
{
    reveal_with_fuel(weight, 6);
}

/// The payload of a prefix is below the weight of the next byte.
pub proof fn lemma_payload_bound(s: Seq<u8>, n: nat)
    ensures
        payload(s, n) < weight(n),
    decreases n,
{
    if n > 0 {
        lemma_payload_bound(s, (n - 1) as nat);
        let w = weight((n - 1) as nat);
        let b = (s[n - 1] % 128) as nat;
        assert(b * w <= 127 * w) by (nonlinear_arith)
            requires
                b <= 127,
        ;
    }
}

/// The unsigned and the signed reading are inverse to each other.
pub proof fn readings_are_inverse(v: i32, n: nat)
    requires
        n < 0x1_0000_0000,
    ensures
        as_unsigned(v) < 0x1_0000_0000,
        as_signed(as_unsigned(v)) == v,
        as_unsigned(as_signed(n)) == n,
{
}

/// A shortest encoding that starts at byte `i` of `s` is read back: it ends
/// where its last byte stands, and adds its number, scaled by the weight of
/// byte `i`, to the payload before it.
proof fn lemma_reads_back(s: Seq<u8>, i: nat, m: nat)
    requires
        i < 5,
        m < weight((5 - i) as nat),
        i + unsigned_bytes(m).len() <= s.len(),
        s.subrange(i as int, (i + unsigned_bytes(m).len()) as int) == unsigned_bytes(m),
    ensures
        encoded_len(s, i) == Some(i + unsigned_bytes(m).len()),
        payload(s, i + unsigned_bytes(m).len()) == payload(s, i) + m * weight(i),
    decreases m,
{
    let enc = unsigned_bytes(m);
    let len = enc.len();
    let w = weight(i);
    assert(s[i as int] == s.subrange(i as int, (i + len) as int)[0]);
    if m < 128 {
        assert(enc == seq![m as u8]);
        assert(payload(s, i + 1) == payload(s, i) + (s[i as int] % 128) as nat * w);
    } else {
        let b = (m % 128 + 128) as u8;
        let q = m / 128;
        let tail = unsigned_bytes(q);
        assert(enc == seq![b] + tail);
        lemma_weight_values();
        assert(i < 4) by {
            if i == 4 {
                assert(weight(1) == 128);
            }
        }
        assert(weight((5 - i) as nat) == 128 * weight((4 - i) as nat));
        let from = (i + 1) as int;
        let to = (i + 1 + tail.len()) as int;
        assert(s.subrange(from, to) == tail) by {
            assert forall|k: int| 0 <= k < tail.len() implies s.subrange(from, to)[k] == tail[k] by {
                assert(s.subrange(i as int, (i + len) as int)[k + 1] == enc[k + 1]);
            }
        }
        lemma_reads_back(s, i + 1, q);
        assert(payload(s, i + 1) == payload(s, i) + (s[i as int] % 128) as nat * w);
        assert(s[i as int] % 128 == m % 128);
        assert(weight(i + 1) == 128 * w);
        assert((m % 128) * w + q * (128 * w) == m * w) by (nonlinear_arith)
            requires
                q == m / 128,
        ;
    }
}

/// Round trip: whatever follows it, the encoding of a value reads back as
/// that value and as many bytes as were written.
pub proof fn varint_round_trip(v: i32, rest: Seq<u8>)
    ensures
        parse_varint(varint_bytes(v) + rest) == Ok::<(i32, nat), DecodeError>(
            (v, varint_bytes(v).len()),
        ),
        1 <= varint_bytes(v).len() <= 5,
{
    let enc = varint_bytes(v);
    let s = enc + rest;
    lemma_weight_values();
    assert(s.subrange(0, enc.len() as int) == enc);
    lemma_reads_back(s, 0, as_unsigned(v));
    assert(encoded_len(s, 0) is Some);
    lemma_encoded_len_bound(s, 0);
}

/// A length found from byte `i` on lies between `i + 1` and five, within `s`.
pub proof fn lemma_encoded_len_bound(s: Seq<u8>, i: nat)
    ensures
        encoded_len(s, i) matches Some(n) ==> i < n <= 5 && n <= s.len() && s[n - 1] < 128,
    decreases 5 - i,
{
    if i < 5 && i < s.len() && s[i as int] >= 128 {
        lemma_encoded_len_bound(s, i + 1);
    }
}

/// Bytes that all carry the continuation flag, be they fewer than five (the
/// value is incomplete) or five and more (it is over-long), are refused.
pub proof fn unterminated_varint_rejected(s: Seq<u8>)
    requires
        forall|j: int| 0 <= j < s.len() && j < 5 ==> s[j] >= 128,
    ensures
        parse_varint(s) == Err::<(i32, nat), DecodeError>(DecodeError::MalformedVarint),
{
    reveal_with_fuel(encoded_len, 6);
}

/// Reads the unsigned form of `v`.
pub fn to_unsigned(v: i32) -> (n: u32)
    ensures
        n == as_unsigned(v),
{
    if v >= 0 {
        v as u32
    } else {
        let low: u32 = (v - i32::MIN) as u32;
        low + 0x8000_0000u32
    }
}

/// Reads the signed form of `n`.
pub fn to_signed(n: u32) -> (v: i32)
    ensures
        v == as_signed(n as nat),
{
    if n < 0x8000_0000u32 {
        n as i32
    } else {
        let low: i32 = (n - 0x8000_0000u32) as i32;
        low + i32::MIN
    }
}

/// Appends the encoding of `v` to `out`.
pub fn encode_varint(v: i32, out: &mut Vec<u8>)
    ensures
        final(out)@ == old(out)@ + varint_bytes(v),
{
    let mut n: u32 = to_unsigned(v);
    while n >= 128
        invariant
            out@ + unsigned_bytes(n as nat) == old(out)@ + varint_bytes(v),
        decreases n,
    {
        let b: u8 = (n % 128 + 128) as u8;
        assert(unsigned_bytes(n as nat) == seq![b] + unsigned_bytes((n / 128) as nat));
        assert(out@.push(b) + unsigned_bytes((n / 128) as nat) == out@ + (seq![b]
            + unsigned_bytes((n / 128) as nat)));
        out.push(b);
        n = n / 128;
    }
    assert(unsigned_bytes(n as nat) == seq![n as u8]);
    assert(out@.push(n as u8) == out@ + seq![n as u8]);
    out.push(n as u8);
}

/// Reads a 32-bit value from `data` at `pos`: the value and the position
/// after it. A position past the end has no value to read.
pub fn decode_varint(data: &[u8], pos: usize) -> (r: Result<(i32, usize), DecodeError>)
    ensures
        pos <= data@.len() ==> match (r, parse_varint(data@.skip(pos as int))) {
            (Ok((v, next)), Ok((value, n))) => v == value && next == pos + n && next <= data@.len(),
            (Err(e), Err(error)) => e == error,
            _ => false,
        },
        pos > data@.len() ==> r == Err::<(i32, usize), DecodeError>(DecodeError::MalformedVarint),
{
    if pos > data.len() {
        return Err(DecodeError::MalformedVarint);
    }
    let ghost s = data@.skip(pos as int);
    let mut acc: u64 = 0;
    let mut w: u64 = 1;
    let mut i: usize = 0;
    while i < MAX_LEN
        invariant
            s == data@.skip(pos as int),
            pos <= data@.len(),
            i <= 5,
            i <= s.len(),
            w == weight(i as nat),
            acc == payload(s, i as nat),
            encoded_len(s, 0) == encoded_len(s, i as nat),
        decreases 5 - i,
    {
        proof {
            lemma_weight_values();
            lemma_payload_bound(s, i as nat);
        }
        if i >= data.len() - pos {
            return Err(DecodeError::MalformedVarint);
        }
        let b: u8 = data[pos + i];
        assert(b == s[i as int]);
        assert(w <= 268435456 && acc < w);
        assert((b as u64) * w <= 255 * 268435456) by (nonlinear_arith)
            requires
                b <= 255,
                w <= 268435456,
        ;
        if b < 128 {
            let total: u64 = acc + (b as u64) * w;
            assert(total == payload(s, (i + 1) as nat));
            if total > 0xffff_ffffu64 {
                return Err(DecodeError::MalformedVarint);
            }
            return Ok((to_signed(total as u32), pos + i + 1));
        }
        assert(((b - 128) as u64) * w <= (b as u64) * w) by (nonlinear_arith)
            requires
                b >= 128,
        ;
        assert(b % 128 == b - 128);
        acc = acc + ((b - 128) as u64) * w;
        w = w * 128;
        i = i + 1;
    }
    Err(DecodeError::MalformedVarint)
}

} // verus!
