//! The session hash: a SHA-1 digest read as a signed 160-bit integer and
//! written in hexadecimal, a minus sign before the digits of a negative one.

use crate::bigendian::be_bytes;
use crate::bigendian::be_bytes_of_value;
use crate::bigendian::be_round_trip;
use crate::bigendian::be_value;
use crate::bigendian::lemma_be_value_bound;
use crate::bigendian::lemma_be_value_prepend;
use crate::bigendian::lemma_pow256_positive;
use crate::bigendian::pow256;
use crate::bigendian::signed_of;
use crate::bytes::append_bytes;
use crate::hex::hex_digit;
use crate::hex::hex_text;
use crate::hex::to_hex;
use regex::Regex;
use vstd::prelude::*;
use vstd::string::StringExecFns;

verus! {

/// The SHA-1 digest of `data`.
pub uninterp spec fn sha1(data: Seq<u8>) -> Seq<u8>;

/// The pattern of a run of zeros at the start of a text.
pub const LEADING_ZEROS: &'static str = "^0+";

/// The two's-complement negation of a number of `width` bytes.
pub open spec fn negated(n: nat, width: nat) -> nat {
    if n == 0 {
        0
    } else {
        (pow256(width) - n) as nat
    }
}

/// The bytes of the negation of the number that `bytes` spell.
pub open spec fn negated_bytes(bytes: Seq<u8>) -> Seq<u8> {
    be_bytes(negated(be_value(bytes), bytes.len()), bytes.len())
}

/// The text behind the zeros it starts with.
pub open spec fn without_leading_zeros(text: Seq<char>) -> Seq<char>
    decreases text.len(),
{
    if text.len() > 0 && text[0] == '0' {
        without_leading_zeros(text.drop_first())
    } else {
        text
    }
}

/// Whether the digest, read as a signed integer, is below zero.
pub open spec fn is_negative(digest: Seq<u8>) -> bool {
    digest.len() > 0 && digest[0] >= 0x80
}

/// The digits of the digest's magnitude: no leading zero, and a single `0`
/// for zero.
pub open spec fn magnitude_digits(digest: Seq<u8>) -> Seq<char> {
    let magnitude = if is_negative(digest) {
        negated_bytes(digest)
    } else {
        digest
    };
    let digits = without_leading_zeros(hex_text(magnitude));
    if digits.len() == 0 {
        seq!['0']
    } else {
        digits
    }
}

/// The digest as a signed hexadecimal number.
pub open spec fn signed_hex(digest: Seq<u8>) -> Seq<char> {
    if is_negative(digest) {
        seq!['-'] + magnitude_digits(digest)
    } else {
        magnitude_digits(digest)
    }
}

/// The session hash of a server id, a shared secret and a public key: the
/// signed hexadecimal form of the digest of the three, one after another.
pub open spec fn session_hash_text(
    server_id: Seq<u8>,
    shared_secret: Seq<u8>,
    public_key: Seq<u8>,
) -> Seq<char> {
    signed_hex(sha1(server_id + shared_secret + public_key))
}

/// The digits of a number, most significant first: no leading zero, and a
/// single `0` for zero.
pub open spec fn hex_numeral(n: nat) -> Seq<char>
    decreases n,
{
    if n < 16 {
        seq![hex_digit(n)]
    } else {
        hex_numeral(n / 16).push(hex_digit(n % 16))
    }
}

/// A whole number in hexadecimal, a minus sign before the digits of a
/// negative one.
pub open spec fn signed_numeral(v: int) -> Seq<char> {
    if v < 0 {
        seq!['-'] + hex_numeral((-v) as nat)
    } else {
        hex_numeral(v as nat)
    }
}

/// Every number has a digit.
proof fn lemma_numeral_not_empty(n: nat)
    ensures
        hex_numeral(n).len() >= 1,
    decreases n,
{
    if n >= 16 {
        lemma_numeral_not_empty(n / 16);
    }
}

/// Zeros are taken off the front of the first part of a text; only where
/// nothing of the first part is left are they taken off the second.
proof fn lemma_zeros_of_concat(x: Seq<char>, y: Seq<char>)
    ensures
        without_leading_zeros(x + y) == if without_leading_zeros(x).len() > 0 {
            without_leading_zeros(x) + y
        } else {
            without_leading_zeros(y)
        },
    decreases x.len(),
{
    if x.len() == 0 {
        assert(x + y == y);
    } else if x[0] == '0' {
        assert((x + y).drop_first() == x.drop_first() + y);
        lemma_zeros_of_concat(x.drop_first(), y);
    } else {
        assert((x + y)[0] == x[0]);
    }
}

/// The digits of bytes, without the zeros in front, are the numeral of the
/// number that the bytes spell; of zero nothing is left.
proof fn lemma_digits_of_bytes(bytes: Seq<u8>)
    ensures
        without_leading_zeros(hex_text(bytes)) == if be_value(bytes) == 0 {
            Seq::<char>::empty()
        } else {
            hex_numeral(be_value(bytes))
        },
    decreases bytes.len(),
{
    if bytes.len() > 0 {
        let front = bytes.drop_last();
        let last = bytes.last();
        let high = hex_digit((last / 16) as nat);
        let low = hex_digit((last % 16) as nat);
        let pair = seq![high, low];
        let v = be_value(bytes);
        let w = be_value(front);
        lemma_digits_of_bytes(front);
        lemma_zeros_of_concat(hex_text(front), pair);
        assert(v == w * 256 + last);
        if w > 0 {
            lemma_numeral_not_empty(w);
            assert(v / 16 == w * 16 + last / 16);
            assert((v / 16) / 16 == w && (v / 16) % 16 == last / 16 && v % 16 == last % 16);
            assert(hex_numeral(v / 16) == hex_numeral(w).push(high));
            assert(hex_numeral(v) == hex_numeral(w).push(high).push(low));
            assert(hex_numeral(w) + pair == hex_numeral(w).push(high).push(low));
        } else {
            assert(pair.drop_first() == seq![low]);
            assert(seq![low].drop_first() == Seq::<char>::empty());
            assert(without_leading_zeros(Seq::<char>::empty()) == Seq::<char>::empty());
            if last / 16 != 0 {
                assert(high != '0');
                assert(without_leading_zeros(pair) == pair);
                assert(hex_numeral((last / 16) as nat) == seq![high]);
                assert(hex_numeral(v) == seq![high].push(low));
                assert(seq![high].push(low) == pair);
            } else if last % 16 != 0 {
                assert(high == '0' && low != '0');
                assert(without_leading_zeros(seq![low]) == seq![low]);
                assert(without_leading_zeros(pair) == seq![low]);
            } else {
                assert(high == '0' && low == '0');
                assert(without_leading_zeros(seq![low]) == Seq::<char>::empty());
                assert(without_leading_zeros(pair) == Seq::<char>::empty());
            }
        }
    }
}

/// The top bit of the first byte is the sign of the number.
proof fn lemma_sign_bit(bytes: Seq<u8>)
    requires
        bytes.len() > 0,
    ensures
        is_negative(bytes) <==> 2 * be_value(bytes) >= pow256(bytes.len()),
{
    let first = bytes[0];
    let rest = bytes.drop_first();
    let p = pow256(rest.len());
    assert(bytes == seq![first] + rest);
    lemma_be_value_prepend(first, rest);
    lemma_be_value_bound(rest);
    assert(pow256(bytes.len()) == 256 * p);
    let r = be_value(rest);
    assert((first >= 128 ==> 2 * (first * p + r) >= 256 * p) && (first < 128 ==> 2 * (first * p
        + r) < 256 * p)) by (nonlinear_arith)
        requires
            0 <= r < p,
            0 <= first <= 255,
    ;
}

/// What the digest is written as is the hexadecimal numeral of the signed
/// integer that its bytes spell in two's complement, most significant byte
/// first.
pub proof fn signed_hex_is_numeral(digest: Seq<u8>)
    requires
        digest.len() > 0,
    ensures
        signed_hex(digest) == signed_numeral(signed_of(be_value(digest), digest.len())),
{
    let n = be_value(digest);
    let width = digest.len();
    lemma_sign_bit(digest);
    lemma_be_value_bound(digest);
    if is_negative(digest) {
        let m = negated(n, width);
        assert(m == pow256(width) - n);
        be_round_trip(m, width);
        lemma_digits_of_bytes(negated_bytes(digest));
        lemma_numeral_not_empty(m);
    } else {
        lemma_digits_of_bytes(digest);
        lemma_numeral_not_empty(n);
    }
}

/// `openssl::sha::sha1`: the SHA-1 digest of the data.
#[verifier::external_body]
fn sha1_digest(data: &[u8]) -> (digest: [u8; 20])
    ensures
        digest@ == sha1(data@),
{
    openssl::sha::sha1(data)
}

/// `Regex::new` and `Regex::replace` of regex, with an empty replacement:
/// the pattern `^0+` matches the zeros a text starts with, where it starts
/// with one, so what comes back is the text behind them.
#[verifier::external_body]
fn remove_match(pattern: &str, text: &str) -> (out: String)
    requires
        pattern@ == LEADING_ZEROS@,
    ensures
        out@ == without_leading_zeros(text@),
{
    Regex::new(pattern).unwrap().replace(text, "").into_owned()
}

/// Negates, in place, the 160-bit number that the bytes spell.
pub fn two_complement(bytes: &mut [u8; 20])
    ensures
        final(bytes)@ == negated_bytes(old(bytes)@),
        be_value(final(bytes)@) == negated(be_value(old(bytes)@), 20),
{
    let mut carry = true;
    let mut i: usize = 20;
    while i > 0
        invariant
            i <= 20,
            bytes@.len() == 20,
            be_value(bytes@.skip(i as int)) == negated(
                be_value(old(bytes)@.skip(i as int)),
                (20 - i) as nat,
            ),
            carry == (be_value(old(bytes)@.skip(i as int)) == 0),
            forall|j: int| 0 <= j < i ==> bytes@[j] == old(bytes)@[j],
        decreases i,
    {
        i = i - 1;
        let ghost before = bytes@;
        let b: u8 = bytes[i];
        let inverted: u8 = 255 - b;
        let next: u8 = if carry {
            if inverted == 255 {
                0
            } else {
                carry = false;
                inverted + 1
            }
        } else {
            inverted
        };
        bytes[i] = next;
        proof {
            let old_tail = old(bytes)@.skip(i + 1);
            let new_tail = before.skip(i + 1);
            let p = pow256(old_tail.len());
            assert(bytes@.skip(i + 1) == new_tail);
            assert(old(bytes)@.skip(i as int) == seq![b] + old_tail);
            assert(bytes@.skip(i as int) == seq![next] + new_tail);
            lemma_be_value_prepend(b, old_tail);
            lemma_be_value_prepend(next, new_tail);
            lemma_be_value_bound(old_tail);
            lemma_pow256_positive(old_tail.len());
            assert(pow256((20 - i) as nat) == 256 * p);
            assert(b * p >= 0 && (b > 0 ==> b * p >= p) && (255 - b) * p + p + b * p == 256 * p
                && (256 - b) * p + b * p == 256 * p) by (nonlinear_arith)
                requires
                    p > 0,
                    0 <= b <= 255,
            ;
        }
    }
    proof {
        assert(bytes@.skip(0) == bytes@);
        assert(old(bytes)@.skip(0) == old(bytes)@);
        be_bytes_of_value(bytes@);
    }
}

/// Writes a digest as a signed hexadecimal number: the digits of its
/// magnitude without leading zeros, `0` for zero, and a minus sign first
/// where the digest's top bit is set.
pub fn hex_digest(digest: [u8; 20]) -> (text: String)
    ensures
        text@ == signed_hex(digest@),
        text@ == signed_numeral(signed_of(be_value(digest@), 20)),
{
    proof {
        signed_hex_is_numeral(digest@);
    }
    let mut bytes = digest;
    let negative = bytes[0] >= 0x80;
    if negative {
        two_complement(&mut bytes);
    }
    let digits = to_hex(bytes.as_slice());
    let stripped = remove_match(LEADING_ZEROS, digits.as_str());
    proof {
        reveal_strlit("0");
        reveal_strlit("-");
        assert("0"@ == seq!['0']);
        assert("-"@ == seq!['-']);
    }
    let body = if stripped.as_str().is_empty() {
        "0".to_owned()
    } else {
        stripped
    };
    if negative {
        let mut text = "-".to_owned();
        text.append(body.as_str());
        text
    } else {
        body
    }
}

/// Computes the session hash that the session-verification service is asked
/// with.
pub fn session_hash(server_id: &[u8], shared_secret: &[u8], public_key: &[u8]) -> (text: String)
    ensures
        text@ == session_hash_text(server_id@, shared_secret@, public_key@),
{
    let mut data: Vec<u8> = Vec::new();
    append_bytes(&mut data, server_id);
    append_bytes(&mut data, shared_secret);
    append_bytes(&mut data, public_key);
    assert(data@ == server_id@ + shared_secret@ + public_key@);
    hex_digest(sha1_digest(data.as_slice()))
}

} // verus!
