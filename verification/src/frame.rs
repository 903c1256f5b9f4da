//! The frame reader: reassembles discrete, length-delimited packet frames
//! out of a byte stream that arrives in arbitrary-sized chunks.
//!
//! A frame on the wire is a VarInt length followed by exactly that many
//! bytes (the packet id and its payload).  The reader accumulates chunks
//! and hands out one complete frame at a time; an incomplete length prefix
//! or an incomplete frame is never an error, only a reason to wait for
//! more input.

use crate::bytebuf::ByteBuf;
use crate::wire::{parse_varint, varint_enc, WireError};
use vstd::prelude::*;

verus! {

/// What the buffered bytes hold: not yet a whole frame, a complete frame
/// followed by the bytes after it, or malformed input.
pub enum FrameStep {
    Incomplete,
    Frame(Seq<u8>, Seq<u8>),
    Bad(WireError),
}

/// Splits the first complete frame off the front of `s`.  An incomplete
/// length prefix or fewer buffered bytes than the declared length is
/// `Incomplete`; a length prefix of more than five continuation bytes or a
/// negative declared length is `Bad`.
pub open spec fn frame_split(s: Seq<u8>) -> FrameStep {
    match parse_varint(s) {
        Err(WireError::BufferUnderrun) => FrameStep::Incomplete,
        Err(e) => FrameStep::Bad(e),
        Ok((len, n)) => {
            if len < 0 {
                FrameStep::Bad(WireError::MalformedVarInt)
            } else if s.len() - n < len {
                FrameStep::Incomplete
            } else {
                FrameStep::Frame(s.subrange(n, n + len), s.skip(n + len))
            }
        },
    }
}

/// The accumulation buffer between the transport and the dispatcher.
pub struct FrameReader {
    pub acc: ByteBuf,
}

impl FrameReader {
    /// The reader's cursor always sits at the start of its buffer.
    pub open spec fn wf(&self) -> bool {
        self.acc.wf() && self.acc.read_offset == 0
    }

    /// The bytes received and not yet handed out as frames.
    pub open spec fn buffered(&self) -> Seq<u8> {
        self.acc.data@
    }

    pub fn new() -> (r: FrameReader)
        ensures
            r.wf(),
            r.buffered() == Seq::<u8>::empty(),
    {
        FrameReader { acc: ByteBuf::new() }
    }

    /// Appends a newly arrived chunk to the buffer.  Feeding a byte
    /// sequence in many chunks leaves the reader in exactly the state that
    /// feeding it in one chunk would.
    pub fn push_chunk(&mut self, chunk: &[u8])
        requires
            old(self).wf(),
        ensures
            final(self).wf(),
            final(self).buffered() == old(self).buffered() + chunk@,
    {
        self.acc.write_buf(chunk);
    }

    /// Takes the first complete frame out of the buffer, if one is there.
    /// `Ok(None)` means more input is needed; an error means the length
    /// prefix cannot be trusted and the connection should be closed.
    pub fn next_frame(&mut self) -> (r: Result<Option<Vec<u8>>, WireError>)
        requires
            old(self).wf(),
        ensures
            final(self).wf(),
            match frame_split(old(self).buffered()) {
                FrameStep::Incomplete => r == Ok::<Option<Vec<u8>>, WireError>(None) && final(self).buffered() == old(self).buffered(),
                FrameStep::Frame(f, rest) => (r matches Ok(o) && o matches Some(v) && v@ == f)
                    && final(self).buffered() == rest,
                FrameStep::Bad(e) => r == Err::<Option<Vec<u8>>, WireError>(e) && final(self).buffered() == old(self).buffered(),
            },
    {
        proof {
            assert(self.acc.rem() =~= self.acc.data@);
        }
        let len = match self.acc.read_varint() {
            Ok(v) => v,
            Err(e) => {
                return match e {
                    WireError::BufferUnderrun => Ok(None),
                    _ => Err(e),
                };
            },
        };
        let n = self.acc.read_offset;
        proof {
            crate::wire::lemma_parse_varint_consumed(old(self).buffered());
        }
        if len < 0 {
            self.acc.read_offset = 0;
            return Err(WireError::MalformedVarInt);
        }
        let len = len as usize;
        if self.acc.data.len() - n < len {
            self.acc.read_offset = 0;
            return Ok(None);
        }
        let mut tail = self.acc.data.split_off(n);
        let rest = tail.split_off(len);
        self.acc.data = rest;
        self.acc.read_offset = 0;
        proof {
            assert(tail@ =~= old(self).buffered().subrange(n as int, n as int + len as int));
            assert(self.acc.data@ =~= old(self).buffered().skip(n as int + len as int));
        }
        Ok(Some(tail))
    }
}

/// Frame reassembly is exact: when the buffered bytes are a VarInt length
/// prefix, a body of exactly that length, and whatever arrived after them,
/// the split yields exactly that body and leaves exactly the bytes after
/// it — however the bytes were chunked on arrival.
pub proof fn lemma_frame_split_complete(body: Seq<u8>, rest: Seq<u8>)
    requires
        body.len() <= 0x7FFFFFFF,
    ensures
        frame_split(varint_enc(body.len() as u32) + body + rest) == FrameStep::Frame(body, rest),
{
    let len = body.len() as u32;
    let s = varint_enc(len) + body + rest;
    assert(s =~= varint_enc(len) + (body + rest));
    crate::wire::lemma_parse_varint_enc(len, body + rest);
    let n = varint_enc(len).len() as int;
    assert(crate::wire::i32_of_u32(len) == body.len());
    assert(s.subrange(n, n + body.len() as int) =~= body);
    assert(s.skip(n + body.len() as int) =~= rest);
}

/// Back-to-back frames come out one at a time, in arrival order: a buffer
/// holding two complete frames yields the first body and leaves exactly
/// the second frame, which then yields the second body.
pub proof fn lemma_two_frames_in_order(body1: Seq<u8>, body2: Seq<u8>)
    requires
        body1.len() <= 0x7FFFFFFF,
        body2.len() <= 0x7FFFFFFF,
    ensures
        frame_split(
            (varint_enc(body1.len() as u32) + body1) + (varint_enc(body2.len() as u32) + body2),
        ) == FrameStep::Frame(body1, varint_enc(body2.len() as u32) + body2),
        frame_split(varint_enc(body2.len() as u32) + body2) == FrameStep::Frame(
            body2,
            Seq::empty(),
        ),
{
    let second = varint_enc(body2.len() as u32) + body2;
    assert((varint_enc(body1.len() as u32) + body1) + second =~= varint_enc(
        body1.len() as u32,
    ) + body1 + second);
    lemma_frame_split_complete(body1, second);
    assert(second =~= varint_enc(body2.len() as u32) + body2 + Seq::<u8>::empty());
    lemma_frame_split_complete(body2, Seq::empty());
}

/// A buffer that holds no complete frame stays incomplete: fewer bytes
/// than the length prefix declares never produce a frame, and never an
/// error either.
pub proof fn lemma_frame_split_incomplete(body: Seq<u8>, cut: int)
    requires
        body.len() <= 0x7FFFFFFF,
        0 <= cut < varint_enc(body.len() as u32).len() + body.len(),
    ensures
        frame_split((varint_enc(body.len() as u32) + body).take(cut)) is Incomplete,
{
    let len = body.len() as u32;
    let whole = varint_enc(len) + body;
    let s = whole.take(cut);
    let n = varint_enc(len).len() as int;
    crate::wire::lemma_varint_enc_len(len);
    if cut < n {
        assert(s =~= varint_enc(len).take(cut));
        crate::wire::lemma_parse_varint_prefix_underrun(len, cut);
    } else {
        assert(s =~= varint_enc(len) + body.take(cut - n));
        crate::wire::lemma_parse_varint_enc(len, body.take(cut - n));
        assert(crate::wire::i32_of_u32(len) == body.len());
        assert(s.len() - n < body.len());
    }
}

} // verus!
