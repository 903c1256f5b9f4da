//! The executable byte cursor.
//!
//! A `ByteBuf` owns a byte sequence and a read position.  Writes append to
//! the end and never fail; reads advance the position and fail with a
//! [`WireError`] instead of reading out of bounds.  Every method is
//! specified against the encoding and parsing functions of [`crate::wire`].

use crate::wire::{
    be128, be16, be32, be64, bool_byte, i32_of_u32, i64_of_u64, i8_of_u8, parse_bool, parse_i64,
    parse_i8, parse_u128, parse_u16, parse_u32, parse_u64, parse_u8, parse_varint,
    parse_varint_rec, u16_of_i16, u32_of_i32, u64_of_i64, u8_of_i8, varint_enc, varint_value,
    WireError,
};
use vstd::prelude::*;

verus! {

/// Converts a signed 32-bit value to its two's-complement bit pattern.
pub fn u32_from_i32(v: i32) -> (r: u32)
    ensures
        r == u32_of_i32(v),
{
    if v >= 0 {
        v as u32
    } else {
        ((v as i64) + 0x100000000) as u32
    }
}

/// Reads a two's-complement bit pattern as a signed 32-bit value.
pub fn i32_from_u32(b: u32) -> (r: i32)
    ensures
        r == i32_of_u32(b),
{
    if b < 0x80000000 {
        b as i32
    } else {
        ((b as i64) - 0x100000000) as i32
    }
}

/// An owned byte sequence plus a read position.  The read position never
/// exceeds the length ([`ByteBuf::wf`]); the buffer is created per frame or
/// per outbound packet and discarded after use.
pub struct ByteBuf {
    pub data: Vec<u8>,
    pub read_offset: usize,
}

impl ByteBuf {
    /// The invariant of the cursor: the read position never exceeds the
    /// length of the data.
    pub open spec fn wf(&self) -> bool {
        self.read_offset <= self.data@.len()
    }

    /// The bytes not yet consumed: everything from the read position on.
    pub open spec fn rem(&self) -> Seq<u8> {
        self.data@.skip(self.read_offset as int)
    }

    pub fn new() -> (r: ByteBuf)
        ensures
            r.data@ == Seq::<u8>::empty(),
            r.read_offset == 0,
            r.wf(),
    {
        ByteBuf { data: Vec::new(), read_offset: 0 }
    }

    pub fn len(&self) -> (r: usize)
        ensures
            r == self.data@.len(),
    {
        self.data.len()
    }

    pub fn remaining_len(&self) -> (r: usize)
        requires
            self.wf(),
        ensures
            r == self.rem().len(),
    {
        self.data.len() - self.read_offset
    }

    pub fn clear(&mut self)
        ensures
            final(self).data@ == Seq::<u8>::empty(),
            final(self).read_offset == 0,
            final(self).wf(),
    {
        self.data.clear();
        self.read_offset = 0;
    }

    pub fn reset_read_offset(&mut self)
        ensures
            final(self).data@ == old(self).data@,
            final(self).read_offset == 0,
            final(self).wf(),
    {
        self.read_offset = 0;
    }

    /// Hands out a copy of the whole buffer and clears it.
    pub fn read_all(&mut self) -> (r: Vec<u8>)
        ensures
            r@ == old(self).data@,
            final(self).data@ == Seq::<u8>::empty(),
            final(self).read_offset == 0,
            final(self).wf(),
    {
        let mut out: Vec<u8> = Vec::new();
        let mut i: usize = 0;
        while i < self.data.len()
            invariant
                i <= self.data@.len(),
                out@ == self.data@.subrange(0, i as int),
            decreases self.data@.len() - i,
        {
            out.push(self.data[i]);
            i = i + 1;
            proof {
                assert(out@ =~= self.data@.subrange(0, i as int));
            }
        }
        proof {
            assert(out@ =~= self.data@);
        }
        self.clear();
        out
    }

    /// Removes and returns the first byte of the buffer, leaving the read
    /// position where it was.
    pub fn pop_front_i8(&mut self) -> (r: i8)
        requires
            old(self).read_offset < old(self).data@.len(),
        ensures
            r == i8_of_u8(old(self).data@[0]),
            final(self).data@ == old(self).data@.skip(1),
            final(self).read_offset == old(self).read_offset,
            final(self).wf(),
    {
        let b = self.data.remove(0);
        proof {
            assert(self.data@ =~= old(self).data@.skip(1));
        }
        if b < 0x80 {
            b as i8
        } else {
            ((b as i16) - 0x100) as i8
        }
    }

    // -- writes: appends to the data, never touching the read position --

    pub fn write_u8(&mut self, val: u8)
        ensures
            final(self).data@ == old(self).data@ + seq![val],
            final(self).read_offset == old(self).read_offset,
    {
        self.data.push(val);
        proof {
            assert(self.data@ =~= old(self).data@ + seq![val]);
        }
    }

    pub fn write_i8(&mut self, val: i8)
        ensures
            final(self).data@ == old(self).data@ + seq![u8_of_i8(val)],
            final(self).read_offset == old(self).read_offset,
    {
        if val >= 0 {
            self.write_u8(val as u8);
        } else {
            self.write_u8(((val as i16) + 0x100) as u8);
        }
    }

    pub fn write_bool(&mut self, val: bool)
        ensures
            final(self).data@ == old(self).data@ + seq![bool_byte(val)],
            final(self).read_offset == old(self).read_offset,
    {
        self.write_u8(if val { 1 } else { 0 });
    }

    pub fn write_u16(&mut self, val: u16)
        ensures
            final(self).data@ == old(self).data@ + be16(val),
            final(self).read_offset == old(self).read_offset,
    {
        self.data.push((val / 0x100) as u8);
        self.data.push((val % 0x100) as u8);
        proof {
            assert(self.data@ =~= old(self).data@ + be16(val));
        }
    }

    pub fn write_i16(&mut self, val: i16)
        ensures
            final(self).data@ == old(self).data@ + be16(u16_of_i16(val)),
            final(self).read_offset == old(self).read_offset,
    {
        if val >= 0 {
            self.write_u16(val as u16);
        } else {
            self.write_u16(((val as i32) + 0x10000) as u16);
        }
    }

    pub fn write_u32(&mut self, val: u32)
        ensures
            final(self).data@ == old(self).data@ + be32(val),
            final(self).read_offset == old(self).read_offset,
    {
        self.data.push((val / 0x1000000) as u8);
        self.data.push(((val / 0x10000) % 0x100) as u8);
        self.data.push(((val / 0x100) % 0x100) as u8);
        self.data.push((val % 0x100) as u8);
        proof {
            assert(self.data@ =~= old(self).data@ + be32(val));
        }
    }

    pub fn write_i32(&mut self, val: i32)
        ensures
            final(self).data@ == old(self).data@ + be32(u32_of_i32(val)),
            final(self).read_offset == old(self).read_offset,
    {
        let bits = u32_from_i32(val);
        self.write_u32(bits);
    }

    pub fn write_u64(&mut self, val: u64)
        ensures
            final(self).data@ == old(self).data@ + be64(val),
            final(self).read_offset == old(self).read_offset,
    {
        self.data.push((val / 0x100000000000000) as u8);
        self.data.push(((val / 0x1000000000000) % 0x100) as u8);
        self.data.push(((val / 0x10000000000) % 0x100) as u8);
        self.data.push(((val / 0x100000000) % 0x100) as u8);
        self.data.push(((val / 0x1000000) % 0x100) as u8);
        self.data.push(((val / 0x10000) % 0x100) as u8);
        self.data.push(((val / 0x100) % 0x100) as u8);
        self.data.push((val % 0x100) as u8);
        proof {
            assert(self.data@ =~= old(self).data@ + be64(val));
        }
    }

    pub fn write_i64(&mut self, val: i64)
        ensures
            final(self).data@ == old(self).data@ + be64(u64_of_i64(val)),
            final(self).read_offset == old(self).read_offset,
    {
        if val >= 0 {
            self.write_u64(val as u64);
        } else {
            self.write_u64(((val as i128) + 0x10000000000000000) as u64);
        }
    }

    /// Writes a 128-bit identifier as two 64-bit big-endian halves, most
    /// significant half first.
    pub fn write_uuid(&mut self, uuid: u128)
        ensures
            final(self).data@ == old(self).data@ + be128(uuid),
            final(self).read_offset == old(self).read_offset,
    {
        self.write_u64((uuid / 0x10000000000000000) as u64);
        self.write_u64((uuid % 0x10000000000000000) as u64);
        proof {
            assert(self.data@ =~= old(self).data@ + be128(uuid));
        }
    }

    pub fn write_buf(&mut self, buf: &[u8])
        ensures
            final(self).data@ == old(self).data@ + buf@,
            final(self).read_offset == old(self).read_offset,
    {
        let mut i: usize = 0;
        while i < buf.len()
            invariant
                i <= buf@.len(),
                self.data@ == old(self).data@ + buf@.subrange(0, i as int),
                self.read_offset == old(self).read_offset,
            decreases buf@.len() - i,
        {
            self.data.push(buf[i]);
            i = i + 1;
            proof {
                assert(self.data@ =~= old(self).data@ + buf@.subrange(0, i as int));
            }
        }
        proof {
            assert(self.data@ =~= old(self).data@ + buf@);
        }
    }

    /// Writes a VarInt: 7 bits per byte, least-significant group first, the
    /// continuation bit set on all but the final group.
    pub fn write_varint(&mut self, val: i32)
        ensures
            final(self).data@ == old(self).data@ + varint_enc(u32_of_i32(val)),
            final(self).read_offset == old(self).read_offset,
    {
        let mut rest: u32 = u32_from_i32(val);
        let ghost v0 = rest;
        let ghost data0 = self.data@;
        let ghost len0 = self.data@.len();
        while rest >= 0x80
            invariant
                len0 <= self.data@.len(),
                self.data@.subrange(0, len0 as int) == data0,
                varint_enc(v0) == self.data@.skip(len0 as int) + varint_enc(rest),
                self.read_offset == old(self).read_offset,
            decreases rest,
        {
            let ghost pre = self.data@;
            self.data.push((rest % 0x80 + 0x80) as u8);
            proof {
                assert(self.data@.subrange(0, len0 as int) =~= data0);
                assert(self.data@.skip(len0 as int) =~= pre.skip(len0 as int) + seq![
                    (rest % 0x80 + 0x80) as u8,
                ]);
                assert(varint_enc(rest) == seq![(rest % 0x80 + 0x80) as u8] + varint_enc(
                    rest / 0x80,
                ));
                assert(varint_enc(v0) =~= self.data@.skip(len0 as int) + varint_enc(rest / 0x80));
            }
            rest = rest / 0x80;
        }
        let ghost pre = self.data@;
        self.data.push(rest as u8);
        proof {
            assert(self.data@.skip(len0 as int) =~= pre.skip(len0 as int) + seq![rest as u8]);
            assert(varint_enc(rest) == seq![rest as u8]);
            assert(self.data@ =~= self.data@.subrange(0, len0 as int) + self.data@.skip(
                len0 as int,
            ));
            assert(self.data@ =~= data0 + varint_enc(v0));
        }
    }

    // -- reads: advance the read position, fail instead of going out of
    // bounds, and leave the cursor unchanged on failure --

    pub fn read_u8(&mut self) -> (r: Result<u8, WireError>)
        requires
            old(self).wf(),
        ensures
            final(self).wf(),
            final(self).data@ == old(self).data@,
            match r {
                Ok(v) => parse_u8(old(self).rem()) == Ok::<_, WireError>(
                    (v, final(self).read_offset - old(self).read_offset),
                ),
                Err(e) => parse_u8(old(self).rem()) == Err::<(u8, int), _>(e) && final(self).read_offset == old(self).read_offset,
            },
    {
        if self.data.len() - self.read_offset >= 1 {
            let b = self.data[self.read_offset];
            self.read_offset = self.read_offset + 1;
            Ok(b)
        } else {
            Err(WireError::BufferUnderrun)
        }
    }

    pub fn read_i8(&mut self) -> (r: Result<i8, WireError>)
        requires
            old(self).wf(),
        ensures
            final(self).wf(),
            final(self).data@ == old(self).data@,
            match r {
                Ok(v) => parse_i8(old(self).rem()) == Ok::<_, WireError>(
                    (v, final(self).read_offset - old(self).read_offset),
                ),
                Err(e) => parse_i8(old(self).rem()) == Err::<(i8, int), _>(e) && final(self).read_offset == old(self).read_offset,
            },
    {
        match self.read_u8() {
            Ok(b) => {
                if b < 0x80 {
                    Ok(b as i8)
                } else {
                    Ok(((b as i16) - 0x100) as i8)
                }
            },
            Err(e) => Err(e),
        }
    }

    pub fn read_bool(&mut self) -> (r: Result<bool, WireError>)
        requires
            old(self).wf(),
        ensures
            final(self).wf(),
            final(self).data@ == old(self).data@,
            match r {
                Ok(v) => parse_bool(old(self).rem()) == Ok::<_, WireError>(
                    (v, final(self).read_offset - old(self).read_offset),
                ),
                Err(e) => parse_bool(old(self).rem()) == Err::<(bool, int), _>(e) && final(self).read_offset == old(self).read_offset,
            },
    {
        match self.read_u8() {
            Ok(b) => Ok(b == 1),
            Err(e) => Err(e),
        }
    }

    pub fn read_u16(&mut self) -> (r: Result<u16, WireError>)
        requires
            old(self).wf(),
        ensures
            final(self).wf(),
            final(self).data@ == old(self).data@,
            match r {
                Ok(v) => parse_u16(old(self).rem()) == Ok::<_, WireError>(
                    (v, final(self).read_offset - old(self).read_offset),
                ),
                Err(e) => parse_u16(old(self).rem()) == Err::<(u16, int), _>(e) && final(self).read_offset == old(self).read_offset,
            },
    {
        if self.data.len() - self.read_offset >= 2 {
            let b0 = self.data[self.read_offset];
            let b1 = self.data[self.read_offset + 1];
            self.read_offset = self.read_offset + 2;
            Ok((b0 as u16) * 0x100 + (b1 as u16))
        } else {
            Err(WireError::BufferUnderrun)
        }
    }

    pub fn read_u32(&mut self) -> (r: Result<u32, WireError>)
        requires
            old(self).wf(),
        ensures
            final(self).wf(),
            final(self).data@ == old(self).data@,
            match r {
                Ok(v) => parse_u32(old(self).rem()) == Ok::<_, WireError>(
                    (v, final(self).read_offset - old(self).read_offset),
                ),
                Err(e) => parse_u32(old(self).rem()) == Err::<(u32, int), _>(e) && final(self).read_offset == old(self).read_offset,
            },
    {
        if self.data.len() - self.read_offset >= 4 {
            let b0 = self.data[self.read_offset];
            let b1 = self.data[self.read_offset + 1];
            let b2 = self.data[self.read_offset + 2];
            let b3 = self.data[self.read_offset + 3];
            self.read_offset = self.read_offset + 4;
            Ok((b0 as u32) * 0x1000000 + (b1 as u32) * 0x10000 + (b2 as u32) * 0x100 + (b3 as u32))
        } else {
            Err(WireError::BufferUnderrun)
        }
    }

    pub fn read_u64(&mut self) -> (r: Result<u64, WireError>)
        requires
            old(self).wf(),
        ensures
            final(self).wf(),
            final(self).data@ == old(self).data@,
            match r {
                Ok(v) => parse_u64(old(self).rem()) == Ok::<_, WireError>(
                    (v, final(self).read_offset - old(self).read_offset),
                ),
                Err(e) => parse_u64(old(self).rem()) == Err::<(u64, int), _>(e) && final(self).read_offset == old(self).read_offset,
            },
    {
        if self.data.len() - self.read_offset >= 8 {
            let b0 = self.data[self.read_offset];
            let b1 = self.data[self.read_offset + 1];
            let b2 = self.data[self.read_offset + 2];
            let b3 = self.data[self.read_offset + 3];
            let b4 = self.data[self.read_offset + 4];
            let b5 = self.data[self.read_offset + 5];
            let b6 = self.data[self.read_offset + 6];
            let b7 = self.data[self.read_offset + 7];
            self.read_offset = self.read_offset + 8;
            Ok(
                (b0 as u64) * 0x100000000000000 + (b1 as u64) * 0x1000000000000 + (b2 as u64)
                    * 0x10000000000 + (b3 as u64) * 0x100000000 + (b4 as u64) * 0x1000000 + (
                b5 as u64) * 0x10000 + (b6 as u64) * 0x100 + (b7 as u64),
            )
        } else {
            Err(WireError::BufferUnderrun)
        }
    }

    pub fn read_i64(&mut self) -> (r: Result<i64, WireError>)
        requires
            old(self).wf(),
        ensures
            final(self).wf(),
            final(self).data@ == old(self).data@,
            match r {
                Ok(v) => parse_i64(old(self).rem()) == Ok::<_, WireError>(
                    (v, final(self).read_offset - old(self).read_offset),
                ),
                Err(e) => parse_i64(old(self).rem()) == Err::<(i64, int), _>(e) && final(self).read_offset == old(self).read_offset,
            },
    {
        match self.read_u64() {
            Ok(v) => {
                if v < 0x8000000000000000 {
                    Ok(v as i64)
                } else {
                    Ok(((v as i128) - 0x10000000000000000) as i64)
                }
            },
            Err(e) => Err(e),
        }
    }

    /// Reads a 128-bit identifier written as two 64-bit big-endian halves,
    /// most significant half first.
    pub fn read_uuid(&mut self) -> (r: Result<u128, WireError>)
        requires
            old(self).wf(),
        ensures
            final(self).wf(),
            final(self).data@ == old(self).data@,
            match r {
                Ok(v) => parse_u128(old(self).rem()) == Ok::<_, WireError>(
                    (v, final(self).read_offset - old(self).read_offset),
                ),
                Err(e) => parse_u128(old(self).rem()) == Err::<(u128, int), _>(e) && final(self).read_offset == old(self).read_offset,
            },
    {
        let ghost s = self.rem();
        if self.data.len() - self.read_offset < 16 {
            return Err(WireError::BufferUnderrun);
        }
        let hi = match self.read_u64() {
            Ok(v) => v,
            Err(e) => {
                return Err(e);
            },
        };
        let ghost mid = self.rem();
        proof {
            assert(mid =~= s.skip(8));
        }
        let lo = match self.read_u64() {
            Ok(v) => v,
            Err(e) => {
                return Err(e);
            },
        };
        Ok((hi as u128) * 0x10000000000000000 + (lo as u128))
    }

    /// Hands out everything from the read position to the end, consuming it.
    pub fn read_buf(&mut self) -> (r: Vec<u8>)
        requires
            old(self).wf(),
        ensures
            r@ == old(self).rem(),
            final(self).data@ == old(self).data@,
            final(self).read_offset == old(self).data@.len(),
            final(self).wf(),
    {
        let mut out: Vec<u8> = Vec::new();
        let mut i: usize = self.read_offset;
        while i < self.data.len()
            invariant
                old(self).read_offset <= i <= self.data@.len(),
                self.data@ == old(self).data@,
                self.read_offset == old(self).read_offset,
                out@ == self.data@.subrange(old(self).read_offset as int, i as int),
            decreases self.data@.len() - i,
        {
            out.push(self.data[i]);
            i = i + 1;
            proof {
                assert(out@ =~= self.data@.subrange(old(self).read_offset as int, i as int));
            }
        }
        proof {
            assert(out@ =~= old(self).rem());
        }
        self.read_offset = self.data.len();
        out
    }

    /// Reads a VarInt, accumulating 7-bit groups into a 32-bit signed value;
    /// a fifth continuation byte that still has the continuation bit set is
    /// malformed input, never an unbounded loop.
    pub fn read_varint(&mut self) -> (r: Result<i32, WireError>)
        requires
            old(self).wf(),
        ensures
            final(self).wf(),
            final(self).data@ == old(self).data@,
            match r {
                Ok(v) => parse_varint(old(self).rem()) == Ok::<_, WireError>(
                    (v, final(self).read_offset - old(self).read_offset),
                ),
                Err(e) => parse_varint(old(self).rem()) == Err::<(i32, int), _>(e) && final(self).read_offset == old(self).read_offset,
            },
    {
        let ghost s0 = self.rem();
        let mut pos: usize = self.read_offset;
        let mut count: u32 = 0;
        let mut acc: u64 = 0;
        let mut mult: u64 = 1;
        loop
            invariant
                self.wf(),
                self.data@ == old(self).data@,
                self.read_offset == old(self).read_offset,
                self.read_offset <= pos <= self.data@.len(),
                count <= 4,
                mult == crate::wire::pow128(count as nat),
                acc < mult,
                match parse_varint_rec(self.data@.skip(pos as int), (5 - count) as nat) {
                    Ok((a, n)) => parse_varint_rec(s0, 5) == Ok::<_, WireError>(
                        (acc + mult * a, (pos - self.read_offset) + n),
                    ),
                    Err(e) => parse_varint_rec(s0, 5) == Err::<(int, int), _>(e),
                },
            decreases 5 - count,
        {
            proof {
                crate::wire::lemma_pow128_bound(count as nat);
            }
            if pos >= self.data.len() {
                proof {
                    assert(self.data@.skip(pos as int).len() == 0);
                    assert(parse_varint_rec(self.data@.skip(pos as int), (5 - count) as nat)
                        == Err::<(int, int), _>(WireError::BufferUnderrun));
                }
                return Err(WireError::BufferUnderrun);
            }
            let b = self.data[pos];
            proof {
                assert(self.data@.skip(pos as int)[0] == b);
                assert(self.data@.skip(pos as int).len() >= 1);
            }
            if b < 0x80 {
                proof {
                    assert((b as u64) * mult <= 0x7F * 0x10000000) by (nonlinear_arith)
                        requires
                            b < 0x80,
                            mult <= 0x10000000,
                    ;
                }
                let a: u64 = acc + (b as u64) * mult;
                let ghost av = acc + mult * (b as int);
                proof {
                    assert(parse_varint_rec(self.data@.skip(pos as int), (5 - count) as nat)
                        == Ok::<_, WireError>((b as int, 1int)));
                    assert(av == a as int) by (nonlinear_arith)
                        requires
                            a == acc + b * mult,
                            av == acc + mult * b,
                    ;
                }
                let t: u32 = (a % 0x100000000) as u32;
                let v = i32_from_u32(t);
                let n = pos + 1 - self.read_offset;
                self.read_offset = pos + 1;
                proof {
                    assert(parse_varint_rec(s0, 5) == Ok::<_, WireError>((a as int, n as int)));
                    assert(varint_value(a as int) == v);
                }
                return Ok(v);
            }
            if count == 4 {
                proof {
                    let srest = self.data@.skip(pos as int).skip(1);
                    assert(parse_varint_rec(srest, 0nat) == Err::<(int, int), _>(
                        WireError::MalformedVarInt,
                    ));
                    assert(parse_varint_rec(self.data@.skip(pos as int), 1nat) == Err::<
                        (int, int),
                        _,
                    >(WireError::MalformedVarInt));
                }
                return Err(WireError::MalformedVarInt);
            }
            proof {
                assert(((b - 0x80) as u64) * mult <= 0x7F * 0x10000000) by (nonlinear_arith)
                    requires
                        b >= 0x80,
                        mult <= 0x10000000,
                ;
                assert(acc + ((b - 0x80) as u64) * mult < mult * 0x80) by (nonlinear_arith)
                    requires
                        acc < mult,
                        b >= 0x80,
                        b < 0x100,
                        mult >= 1,
                ;
                assert(self.data@.skip(pos as int).skip(1) =~= self.data@.skip(pos as int + 1));
                match parse_varint_rec(self.data@.skip(pos as int + 1), (5 - (count + 1)) as nat) {
                    Ok((a, n)) => {
                        assert(parse_varint_rec(self.data@.skip(pos as int), (5 - count) as nat)
                            == Ok::<_, WireError>(((b - 0x80) + 0x80 * a, n + 1)));
                        let g = ((b - 0x80) as u64) as int;
                        assert(g == b - 0x80);
                        assert(acc + mult * (g + 0x80 * a) == (acc + g * mult) + (mult * 0x80)
                            * a) by (nonlinear_arith);
                        assert(parse_varint_rec(s0, 5) == Ok::<_, WireError>(
                            ((acc + ((b - 0x80) as u64) * mult) + (mult * 0x80) * a,
                            (pos + 1 - self.read_offset) + n),
                        ));
                    },
                    Err(e) => {
                        assert(parse_varint_rec(self.data@.skip(pos as int), (5 - count) as nat)
                            == Err::<(int, int), _>(e));
                    },
                }
                assert(crate::wire::pow128((count + 1) as nat) == 0x80 * crate::wire::pow128(
                    count as nat,
                ));
            }
            acc = acc + ((b - 0x80) as u64) * mult;
            mult = mult * 0x80;
            count = count + 1;
            pos = pos + 1;
        }
    }
}

/// Relies on `String::from_utf8`: it returns the string whose UTF-8
/// encoding is the given bytes, and fails exactly on bytes that are not
/// valid UTF-8.
#[verifier::external_body]
fn string_from_utf8(bytes: Vec<u8>) -> (r: Option<String>)
    ensures
        match r {
            Some(s) => vstd::utf8::encode_utf8(s@) == bytes@,
            None => !vstd::utf8::valid_utf8(bytes@),
        },
{
    match String::from_utf8(bytes) {
        Ok(s) => Some(s),
        Err(_) => None,
    }
}

impl ByteBuf {
    /// Writes a pre-serialized tree payload verbatim.  Such a payload
    /// delimits itself, so no length prefix is added; the producer of the
    /// bytes is responsible for their structure.
    pub fn write_nbt(&mut self, nbt: &[u8])
        ensures
            final(self).data@ == old(self).data@ + nbt@,
            final(self).read_offset == old(self).read_offset,
    {
        self.write_buf(nbt);
    }

    /// Writes a length-prefixed UTF-8 string: a VarInt byte-length prefix
    /// followed by the bytes themselves.
    pub fn write_string(&mut self, val: &str)
        requires
            vstd::utf8::encode_utf8(val@).len() <= 0x7FFFFFFF,
        ensures
            final(self).data@ == old(self).data@ + crate::wire::string_enc(val@),
            final(self).read_offset == old(self).read_offset,
    {
        let bytes = val.as_bytes();
        self.write_varint(bytes.len() as i32);
        self.write_buf(bytes);
        proof {
            assert(self.data@ =~= old(self).data@ + crate::wire::string_enc(val@));
        }
    }

    /// Reads a length-prefixed UTF-8 string.  A declared length that
    /// exceeds the remaining bytes fails with `BufferUnderrun` rather than
    /// reading out of bounds.
    pub fn read_string(&mut self) -> (r: Result<String, WireError>)
        requires
            old(self).wf(),
        ensures
            final(self).wf(),
            final(self).data@ == old(self).data@,
            match r {
                Ok(v) => crate::wire::parse_string(old(self).rem()) == Ok::<_, WireError>(
                    (v@, final(self).read_offset - old(self).read_offset),
                ),
                Err(e) => crate::wire::parse_string(old(self).rem()) == Err::<(Seq<char>, int), _>(
                    e,
                ) && final(self).read_offset == old(self).read_offset,
            },
    {
        let start = self.read_offset;
        let len = match self.read_varint() {
            Ok(v) => v,
            Err(e) => {
                return Err(e);
            },
        };
        let ghost n = self.read_offset - start;
        proof {
            crate::wire::lemma_parse_varint_consumed(old(self).rem());
            assert(1 <= n <= 5);
        }
        if len < 0 {
            self.read_offset = start;
            return Err(WireError::MalformedVarInt);
        }
        let len = len as usize;
        if self.data.len() - self.read_offset < len {
            self.read_offset = start;
            return Err(WireError::BufferUnderrun);
        }
        let mut bytes: Vec<u8> = Vec::new();
        let mut i: usize = self.read_offset;
        while i < self.read_offset + len
            invariant
                self.read_offset <= i <= self.read_offset + len,
                self.read_offset + len <= self.data@.len(),
                self.data@ == old(self).data@,
                self.read_offset == start + n,
                bytes@ == self.data@.subrange(self.read_offset as int, i as int),
            decreases self.read_offset + len - i,
        {
            bytes.push(self.data[i]);
            i = i + 1;
            proof {
                assert(bytes@ =~= self.data@.subrange(self.read_offset as int, i as int));
            }
        }
        proof {
            assert(old(self).rem().subrange(n, n + len as int) =~= old(self).data@.subrange(
                start + n,
                start + n + len,
            ));
            assert(bytes@ =~= old(self).rem().subrange(n, n + len as int));
        }
        match string_from_utf8(bytes) {
            Some(s) => {
                self.read_offset = self.read_offset + len;
                proof {
                    broadcast use
                        vstd::utf8::encode_utf8_decode_utf8,
                        vstd::utf8::encode_utf8_valid_utf8;

                    assert(vstd::utf8::valid_utf8(bytes@));
                    assert(vstd::utf8::decode_utf8(vstd::utf8::encode_utf8(s@)) == s@);
                }
                Ok(s)
            },
            None => {
                self.read_offset = start;
                Err(WireError::MalformedString)
            },
        }
    }
}

} // verus!
