//! Byte-level model of the wire format.
//!
//! Every quantity that crosses the wire is specified here as a function from
//! values to byte sequences (`be16`, `be32`, `be64`, `varint_enc`, ...)
//! together with a partial inverse (`parse_u16`, `parse_varint`, ...) that
//! reads a value off the front of a byte sequence and reports how many bytes
//! it consumed.  The executable cursor in `bytebuf` is specified entirely in
//! terms of these functions, and the round-trip lemmas at the bottom of this
//! file are the ground truth for the codec's correctness.

use vstd::arithmetic::div_mod::{lemma_div_denominator, lemma_fundamental_div_mod};
use vstd::prelude::*;
use vstd::utf8::{decode_utf8, encode_utf8, valid_utf8};

verus! {

/// Why an operation on the byte stream failed.
///
/// `BufferUnderrun` and `MalformedVarInt` are codec-level: the frame cannot
/// be trusted and the connection is closed.  `MalformedString` reports a
/// length-prefixed string whose bytes are not valid UTF-8.  `UnknownPacketId`
/// carries the numeric phase id and the packet id that was not legal in that
/// phase.  The transport kinds are produced by the surrounding I/O layer,
/// never by this crate's own logic.
#[derive(Clone, Copy, Debug, PartialEq, Eq, Structural)]
pub enum WireError {
    BufferUnderrun,
    MalformedVarInt,
    MalformedString,
    UnknownPacketId(i32, i32),
    IllegalPhaseTransition,
    TransportClosed,
    TransportIoError,
}

// ---------------------------------------------------------------------------
// Two's-complement views of the signed integer types.
// ---------------------------------------------------------------------------

pub open spec fn u8_of_i8(v: i8) -> u8 {
    if v >= 0 {
        v as u8
    } else {
        (v + 0x100) as u8
    }
}

pub open spec fn i8_of_u8(b: u8) -> i8 {
    if b < 0x80 {
        b as i8
    } else {
        (b - 0x100) as i8
    }
}

pub open spec fn u16_of_i16(v: i16) -> u16 {
    if v >= 0 {
        v as u16
    } else {
        (v + 0x10000) as u16
    }
}

pub open spec fn u32_of_i32(v: i32) -> u32 {
    if v >= 0 {
        v as u32
    } else {
        (v + 0x100000000) as u32
    }
}

pub open spec fn i32_of_u32(b: u32) -> i32 {
    if b < 0x80000000 {
        b as i32
    } else {
        (b - 0x100000000) as i32
    }
}

pub open spec fn u64_of_i64(v: i64) -> u64 {
    if v >= 0 {
        v as u64
    } else {
        (v + 0x10000000000000000) as u64
    }
}

pub open spec fn i64_of_u64(b: u64) -> i64 {
    if b < 0x8000000000000000 {
        b as i64
    } else {
        (b - 0x10000000000000000) as i64
    }
}

// ---------------------------------------------------------------------------
// Big-endian fixed-width encodings.
// ---------------------------------------------------------------------------

pub open spec fn be16(v: u16) -> Seq<u8> {
    seq![(v / 0x100) as u8, (v % 0x100) as u8]
}

pub open spec fn be32(v: u32) -> Seq<u8> {
    seq![
        (v / 0x1000000) as u8,
        ((v / 0x10000) % 0x100) as u8,
        ((v / 0x100) % 0x100) as u8,
        (v % 0x100) as u8,
    ]
}

pub open spec fn be64(v: u64) -> Seq<u8> {
    seq![
        (v / 0x100000000000000) as u8,
        ((v / 0x1000000000000) % 0x100) as u8,
        ((v / 0x10000000000) % 0x100) as u8,
        ((v / 0x100000000) % 0x100) as u8,
        ((v / 0x1000000) % 0x100) as u8,
        ((v / 0x10000) % 0x100) as u8,
        ((v / 0x100) % 0x100) as u8,
        (v % 0x100) as u8,
    ]
}

/// A 128-bit identifier: the most significant 64-bit half first, each half
/// big-endian.
pub open spec fn be128(v: u128) -> Seq<u8> {
    be64((v / 0x10000000000000000) as u64) + be64((v % 0x10000000000000000) as u64)
}

pub open spec fn parse_u8(s: Seq<u8>) -> Result<(u8, int), WireError> {
    if s.len() < 1 {
        Err(WireError::BufferUnderrun)
    } else {
        Ok((s[0], 1))
    }
}

pub open spec fn parse_u16(s: Seq<u8>) -> Result<(u16, int), WireError> {
    if s.len() < 2 {
        Err(WireError::BufferUnderrun)
    } else {
        Ok(((s[0] * 0x100 + s[1]) as u16, 2))
    }
}

pub open spec fn parse_u32(s: Seq<u8>) -> Result<(u32, int), WireError> {
    if s.len() < 4 {
        Err(WireError::BufferUnderrun)
    } else {
        Ok(((s[0] * 0x1000000 + s[1] * 0x10000 + s[2] * 0x100 + s[3]) as u32, 4))
    }
}

pub open spec fn parse_u64(s: Seq<u8>) -> Result<(u64, int), WireError> {
    if s.len() < 8 {
        Err(WireError::BufferUnderrun)
    } else {
        Ok(
            ((s[0] * 0x100000000000000 + s[1] * 0x1000000000000 + s[2] * 0x10000000000 + s[3]
                * 0x100000000 + s[4] * 0x1000000 + s[5] * 0x10000 + s[6] * 0x100 + s[7]) as u64, 8),
        )
    }
}

pub open spec fn parse_u128(s: Seq<u8>) -> Result<(u128, int), WireError> {
    if s.len() < 16 {
        Err(WireError::BufferUnderrun)
    } else {
        match (parse_u64(s), parse_u64(s.skip(8))) {
            (Ok((hi, _)), Ok((lo, _))) => Ok(((hi * 0x10000000000000000 + lo) as u128, 16)),
            _ => Err(WireError::BufferUnderrun),
        }
    }
}

pub open spec fn parse_i8(s: Seq<u8>) -> Result<(i8, int), WireError> {
    match parse_u8(s) {
        Ok((b, n)) => Ok((i8_of_u8(b), n)),
        Err(e) => Err(e),
    }
}

pub open spec fn parse_i64(s: Seq<u8>) -> Result<(i64, int), WireError> {
    match parse_u64(s) {
        Ok((v, n)) => Ok((i64_of_u64(v), n)),
        Err(e) => Err(e),
    }
}

/// A boolean is one byte on the wire; reading treats exactly `1` as true.
pub open spec fn bool_byte(b: bool) -> u8 {
    if b {
        1
    } else {
        0
    }
}

pub open spec fn parse_bool(s: Seq<u8>) -> Result<(bool, int), WireError> {
    match parse_u8(s) {
        Ok((b, n)) => Ok((b == 1, n)),
        Err(e) => Err(e),
    }
}

// ---------------------------------------------------------------------------
// VarInt: a 32-bit value, 7 bits per byte, least-significant group first,
// continuation flag in the 8th bit, at most 5 bytes.
// ---------------------------------------------------------------------------

/// Powers of 128: the place value of the `n`-th 7-bit group.
pub open spec fn pow128(n: nat) -> int
    decreases n,
{
    if n == 0 {
        1
    } else {
        0x80 * pow128((n - 1) as nat)
    }
}

/// The concrete values of the small powers of 128 that the VarInt code uses.
pub proof fn lemma_pow128_bound(n: nat)
    requires
        n <= 5,
    ensures
        n == 0 ==> pow128(n) == 1,
        n == 1 ==> pow128(n) == 0x80,
        n == 2 ==> pow128(n) == 0x4000,
        n == 3 ==> pow128(n) == 0x200000,
        n == 4 ==> pow128(n) == 0x10000000,
        n == 5 ==> pow128(n) == 0x800000000,
        pow128(n) >= 1,
    decreases n,
{
    if n > 0 {
        lemma_pow128_bound((n - 1) as nat);
    }
}

pub open spec fn varint_enc(v: u32) -> Seq<u8>
    decreases v,
{
    if v < 0x80 {
        seq![v as u8]
    } else {
        seq![(v % 0x80 + 0x80) as u8] + varint_enc(v / 0x80)
    }
}

/// Reads the 7-bit groups of a VarInt off the front of `s`, with `fuel`
/// groups still allowed.  The accumulated value is unbounded here; the
/// 32-bit truncation happens in [`parse_varint`].
pub open spec fn parse_varint_rec(s: Seq<u8>, fuel: nat) -> Result<(int, int), WireError>
    decreases fuel,
{
    if fuel == 0 {
        Err(WireError::MalformedVarInt)
    } else if s.len() == 0 {
        Err(WireError::BufferUnderrun)
    } else if s[0] < 0x80 {
        Ok((s[0] as int, 1))
    } else {
        match parse_varint_rec(s.skip(1), (fuel - 1) as nat) {
            Ok((v, n)) => Ok(((s[0] - 0x80) + 0x80 * v, n + 1)),
            Err(e) => Err(e),
        }
    }
}

/// The decoded value of a VarInt is its accumulated groups, truncated to 32
/// bits and read as a signed value.
pub open spec fn varint_value(a: int) -> i32 {
    i32_of_u32((a % 0x100000000) as u32)
}

pub open spec fn parse_varint(s: Seq<u8>) -> Result<(i32, int), WireError> {
    match parse_varint_rec(s, 5) {
        Ok((a, n)) => Ok((varint_value(a), n)),
        Err(e) => Err(e),
    }
}

// ---------------------------------------------------------------------------
// Length-prefixed UTF-8 strings.
// ---------------------------------------------------------------------------

/// A string on the wire: a VarInt byte-length prefix followed by the UTF-8
/// encoding of the characters.
pub open spec fn string_enc(s: Seq<char>) -> Seq<u8> {
    varint_enc(encode_utf8(s).len() as u32) + encode_utf8(s)
}

/// Reads a length-prefixed string.  A declared length that exceeds the
/// remaining bytes is a `BufferUnderrun`, never an out-of-bounds read; a
/// negative declared length and bytes that are not valid UTF-8 are malformed
/// input.
pub open spec fn parse_string(s: Seq<u8>) -> Result<(Seq<char>, int), WireError> {
    match parse_varint(s) {
        Ok((len, n)) => {
            if len < 0 {
                Err(WireError::MalformedVarInt)
            } else if s.len() - n < len {
                Err(WireError::BufferUnderrun)
            } else {
                let bytes = s.subrange(n, n + len);
                if valid_utf8(bytes) {
                    Ok((decode_utf8(bytes), n + len))
                } else {
                    Err(WireError::MalformedString)
                }
            }
        },
        Err(e) => Err(e),
    }
}

// ---------------------------------------------------------------------------
// Round-trip lemmas: parsing an encoding yields exactly the encoded value
// and consumes exactly the encoding.
// ---------------------------------------------------------------------------

/// A successfully parsed VarInt consumes between one and `fuel` bytes and
/// accumulates a nonnegative value.
pub proof fn lemma_parse_varint_rec_consumed(s: Seq<u8>, fuel: nat)
    ensures
        parse_varint_rec(s, fuel) matches Ok((a, n)) ==> 1 <= n <= fuel && a >= 0,
    decreases fuel,
{
    if fuel > 0 && s.len() > 0 && s[0] >= 0x80 {
        lemma_parse_varint_rec_consumed(s.skip(1), (fuel - 1) as nat);
    }
}

/// A successfully parsed VarInt consumes between one and five bytes.
pub proof fn lemma_parse_varint_consumed(s: Seq<u8>)
    ensures
        parse_varint(s) matches Ok((v, n)) ==> 1 <= n <= 5,
{
    lemma_parse_varint_rec_consumed(s, 5);
}

/// A successfully parsed string consumes between one byte and the whole
/// input.
pub proof fn lemma_parse_string_consumed(s: Seq<u8>)
    ensures
        parse_string(s) matches Ok((v, n)) ==> 1 <= n <= s.len(),
{
    lemma_parse_varint_consumed(s);
}

/// The length of a VarInt encoding, byte for byte: one 7-bit group per byte,
/// five at most.
pub proof fn lemma_varint_enc_len(v: u32)
    ensures
        varint_enc(v).len() == if v < 0x80 {
            1int
        } else if v < 0x4000 {
            2int
        } else if v < 0x200000 {
            3int
        } else if v < 0x10000000 {
            4int
        } else {
            5int
        },
    decreases v,
{
    if v >= 0x80 {
        lemma_varint_enc_len(v / 0x80);
    }
}

pub proof fn lemma_parse_varint_rec_enc(v: u32, rest: Seq<u8>, fuel: nat)
    requires
        varint_enc(v).len() <= fuel,
    ensures
        parse_varint_rec(varint_enc(v) + rest, fuel) == Ok::<_, WireError>(
            (v as int, varint_enc(v).len() as int),
        ),
    decreases v,
{
    let s = varint_enc(v) + rest;
    if v < 0x80 {
        assert(varint_enc(v) == seq![v as u8]);
        assert(s[0] == v as u8);
    } else {
        assert(varint_enc(v) == seq![(v % 0x80 + 0x80) as u8] + varint_enc(v / 0x80));
        assert(s[0] == (v % 0x80 + 0x80) as u8);
        assert(s.skip(1) =~= varint_enc(v / 0x80) + rest);
        lemma_parse_varint_rec_enc(v / 0x80, rest, (fuel - 1) as nat);
        lemma_fundamental_div_mod(v as int, 0x80);
    }
}

proof fn lemma_parse_varint_rec_prefix_underrun(v: u32, cut: int, fuel: nat)
    requires
        0 <= cut < varint_enc(v).len() <= fuel,
    ensures
        parse_varint_rec(varint_enc(v).take(cut), fuel) == Err::<(int, int), _>(
            WireError::BufferUnderrun,
        ),
    decreases v,
{
    if cut == 0 {
        assert(varint_enc(v).take(0) =~= Seq::<u8>::empty());
    } else {
        assert(v >= 0x80) by {
            if v < 0x80 {
                assert(varint_enc(v).len() == 1);
            }
        }
        assert(varint_enc(v) == seq![(v % 0x80 + 0x80) as u8] + varint_enc(v / 0x80));
        let s = varint_enc(v).take(cut);
        assert(s[0] == (v % 0x80 + 0x80) as u8);
        assert(s.skip(1) =~= varint_enc(v / 0x80).take(cut - 1));
        lemma_parse_varint_rec_prefix_underrun(v / 0x80, cut - 1, (fuel - 1) as nat);
    }
}

/// Parsing a strict prefix of a VarInt encoding is never an error beyond
/// wanting more bytes.
pub proof fn lemma_parse_varint_prefix_underrun(v: u32, cut: int)
    requires
        0 <= cut < varint_enc(v).len(),
    ensures
        parse_varint(varint_enc(v).take(cut)) == Err::<(i32, int), _>(WireError::BufferUnderrun),
{
    lemma_varint_enc_len(v);
    lemma_parse_varint_rec_prefix_underrun(v, cut, 5);
}

/// Parsing a VarInt encoding yields exactly the encoded 32-bit value.
pub proof fn lemma_parse_varint_enc(v: u32, rest: Seq<u8>)
    ensures
        parse_varint(varint_enc(v) + rest) == Ok::<_, WireError>(
            (i32_of_u32(v), varint_enc(v).len() as int),
        ),
{
    lemma_varint_enc_len(v);
    lemma_parse_varint_rec_enc(v, rest, 5);
    assert((v as int) % 0x100000000 == v as int);
}

/// VarInt round trip: for every 32-bit signed value, decoding its encoding
/// yields the value back and consumes exactly the encoding, whatever bytes
/// follow it.
pub proof fn lemma_varint_round_trip(v: i32, rest: Seq<u8>)
    ensures
        parse_varint(varint_enc(u32_of_i32(v)) + rest) == Ok::<_, WireError>(
            (v, varint_enc(u32_of_i32(v)).len() as int),
        ),
{
    lemma_parse_varint_enc(u32_of_i32(v), rest);
    assert(i32_of_u32(u32_of_i32(v)) == v);
}

pub proof fn lemma_parse_u16_be(v: u16, rest: Seq<u8>)
    ensures
        parse_u16(be16(v) + rest) == Ok::<_, WireError>((v, 2int)),
{
    let s = be16(v) + rest;
    assert(s[0] == (v / 0x100) as u8 && s[1] == (v % 0x100) as u8);
    lemma_fundamental_div_mod(v as int, 0x100);
}

pub proof fn lemma_parse_u32_be(v: u32, rest: Seq<u8>)
    ensures
        parse_u32(be32(v) + rest) == Ok::<_, WireError>((v, 4int)),
{
    let s = be32(v) + rest;
    assert(s[0] == (v / 0x1000000) as u8);
    assert(s[1] == ((v / 0x10000) % 0x100) as u8);
    assert(s[2] == ((v / 0x100) % 0x100) as u8);
    assert(s[3] == (v % 0x100) as u8);
    lemma_be_chain_32(v as int);
}

/// Decomposing a 32-bit value into its four big-endian bytes and
/// reassembling them is the identity.
proof fn lemma_be_chain_32(v: int)
    requires
        0 <= v < 0x100000000,
    ensures
        (v / 0x1000000) * 0x1000000 + ((v / 0x10000) % 0x100) * 0x10000 + ((v / 0x100) % 0x100)
            * 0x100 + v % 0x100 == v,
{
    lemma_fundamental_div_mod(v, 0x100);
    lemma_fundamental_div_mod(v / 0x100, 0x100);
    lemma_fundamental_div_mod(v / 0x100 / 0x100, 0x100);
    lemma_div_denominator(v, 0x100, 0x100);
    lemma_div_denominator(v / 0x100, 0x100, 0x100);
    lemma_div_denominator(v, 0x100, 0x10000);
}

pub proof fn lemma_parse_u64_be(v: u64, rest: Seq<u8>)
    ensures
        parse_u64(be64(v) + rest) == Ok::<_, WireError>((v, 8int)),
{
    let s = be64(v) + rest;
    assert(s[0] == (v / 0x100000000000000) as u8);
    assert(s[1] == ((v / 0x1000000000000) % 0x100) as u8);
    assert(s[2] == ((v / 0x10000000000) % 0x100) as u8);
    assert(s[3] == ((v / 0x100000000) % 0x100) as u8);
    assert(s[4] == ((v / 0x1000000) % 0x100) as u8);
    assert(s[5] == ((v / 0x10000) % 0x100) as u8);
    assert(s[6] == ((v / 0x100) % 0x100) as u8);
    assert(s[7] == (v % 0x100) as u8);
    lemma_be_chain_64(v as int);
}

/// Decomposing a 64-bit value into its eight big-endian bytes and
/// reassembling them is the identity.
proof fn lemma_be_chain_64(v: int)
    requires
        0 <= v < 0x10000000000000000,
    ensures
        (v / 0x100000000000000) * 0x100000000000000 + ((v / 0x1000000000000) % 0x100)
            * 0x1000000000000 + ((v / 0x10000000000) % 0x100) * 0x10000000000 + ((v / 0x100000000)
            % 0x100) * 0x100000000 + ((v / 0x1000000) % 0x100) * 0x1000000 + ((v / 0x10000) % 0x100)
            * 0x10000 + ((v / 0x100) % 0x100) * 0x100 + v % 0x100 == v,
{
    lemma_fundamental_div_mod(v, 0x100);
    lemma_fundamental_div_mod(v / 0x100, 0x100);
    lemma_fundamental_div_mod(v / 0x10000, 0x100);
    lemma_fundamental_div_mod(v / 0x1000000, 0x100);
    lemma_fundamental_div_mod(v / 0x100000000, 0x100);
    lemma_fundamental_div_mod(v / 0x10000000000, 0x100);
    lemma_fundamental_div_mod(v / 0x1000000000000, 0x100);
    lemma_div_denominator(v, 0x100, 0x100);
    lemma_div_denominator(v, 0x10000, 0x100);
    lemma_div_denominator(v, 0x1000000, 0x100);
    lemma_div_denominator(v, 0x100000000, 0x100);
    lemma_div_denominator(v, 0x10000000000, 0x100);
    lemma_div_denominator(v, 0x1000000000000, 0x100);
}

/// 128-bit identifier round trip: parsing the encoding of any 128-bit value
/// yields the value back, whatever bytes follow it.
pub proof fn lemma_uuid_round_trip(v: u128, rest: Seq<u8>)
    ensures
        parse_u128(be128(v) + rest) == Ok::<_, WireError>((v, 16int)),
{
    let hi = (v / 0x10000000000000000) as u64;
    let lo = (v % 0x10000000000000000) as u64;
    let s = be128(v) + rest;
    assert(s =~= be64(hi) + (be64(lo) + rest));
    lemma_parse_u64_be(hi, be64(lo) + rest);
    assert(s.skip(8) =~= be64(lo) + rest);
    lemma_parse_u64_be(lo, rest);
    lemma_fundamental_div_mod(v as int, 0x10000000000000000);
}

/// String round trip: parsing the encoding of any string yields exactly its
/// characters back, whatever bytes follow it.  The byte length of the
/// string must fit in the 32-bit signed length prefix.
pub proof fn lemma_string_round_trip(s: Seq<char>, rest: Seq<u8>)
    requires
        encode_utf8(s).len() <= 0x7FFFFFFF,
    ensures
        parse_string(string_enc(s) + rest) == Ok::<_, WireError>(
            (s, string_enc(s).len() as int),
        ),
{
    broadcast use vstd::utf8::encode_utf8_valid_utf8, vstd::utf8::encode_utf8_decode_utf8;

    let bytes = encode_utf8(s);
    let len = bytes.len() as u32;
    let w = string_enc(s) + rest;
    assert(w =~= varint_enc(len) + (bytes + rest));
    lemma_parse_varint_enc(len, bytes + rest);
    let n = varint_enc(len).len() as int;
    assert(i32_of_u32(len) == len as int);
    assert(w.subrange(n, n + len as int) =~= bytes);
}

/// The hardening half of the string contract: a truncated string encoding
/// — whether the cut falls in the length prefix or in the declared bytes —
/// always reports `BufferUnderrun` and never reads past the end.
pub proof fn lemma_string_truncated_underrun(s: Seq<char>, cut: int)
    requires
        encode_utf8(s).len() <= 0x7FFFFFFF,
        0 <= cut < string_enc(s).len(),
    ensures
        parse_string(string_enc(s).take(cut)) == Err::<(Seq<char>, int), _>(
            WireError::BufferUnderrun,
        ),
{
    let bytes = encode_utf8(s);
    let len = bytes.len() as u32;
    let n = varint_enc(len).len() as int;
    lemma_varint_enc_len(len);
    if cut < n {
        assert(string_enc(s).take(cut) =~= varint_enc(len).take(cut));
        lemma_parse_varint_prefix_underrun(len, cut);
    } else {
        assert(string_enc(s).take(cut) =~= varint_enc(len) + bytes.take(cut - n));
        lemma_parse_varint_enc(len, bytes.take(cut - n));
        assert(i32_of_u32(len) == bytes.len());
    }
}

} // verus!
