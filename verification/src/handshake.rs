//! The Handshake phase: its single serverbound packet, which declares the
//! protocol version, the target address and port, and the requested next
//! phase.

use crate::bytebuf::ByteBuf;
use crate::wire::{
    be16, parse_string, parse_u16, parse_varint, string_enc, u32_of_i32, varint_enc, WireError,
};
use vstd::prelude::*;
use vstd::utf8::encode_utf8;

verus! {

#[derive(Clone, Copy, Debug, PartialEq, Eq, Structural)]
pub enum EServerHandshakePacket {
    ServerBoundHandshakePacket,
}

pub struct ServerHandshakePacketFactory {}

/// The handshake packet: protocol version, server address, server port,
/// and the declared next phase (1 for Status, 2 for Login).
#[derive(Debug)]
pub struct ServerBoundHandshakePacket {
    pub protocol_version: i32,
    pub server_address: String,
    pub server_port: u16,
    pub next_state: i32,
}

impl Default for ServerBoundHandshakePacket {
    fn default() -> (r: Self)
        ensures
            r.protocol_version == 0,
            r.server_address@ == Seq::<char>::empty(),
            r.server_port == 0,
            r.next_state == 0,
    {
        Self { protocol_version: 0, server_address: String::new(), server_port: 0, next_state: 0 }
    }
}

/// The address string's byte length fits the 32-bit signed length prefix.
pub open spec fn handshake_wf(p: ServerBoundHandshakePacket) -> bool {
    encode_utf8(p.server_address@).len() <= 0x7FFFFFFF
}

pub open spec fn handshake_body(p: ServerBoundHandshakePacket) -> Seq<u8> {
    varint_enc(u32_of_i32(p.protocol_version)) + string_enc(p.server_address@) + be16(
        p.server_port,
    ) + varint_enc(u32_of_i32(p.next_state))
}

pub open spec fn parse_handshake(s: Seq<u8>) -> Result<((i32, Seq<char>, u16, i32), int), WireError> {
    match parse_varint(s) {
        Err(e) => Err(e),
        Ok((pv, n1)) => match parse_string(s.skip(n1)) {
            Err(e) => Err(e),
            Ok((addr, n2)) => match parse_u16(s.skip(n1 + n2)) {
                Err(e) => Err(e),
                Ok((port, n3)) => match parse_varint(s.skip(n1 + n2 + n3)) {
                    Err(e) => Err(e),
                    Ok((ns, n4)) => Ok(((pv, addr, port, ns), n1 + n2 + n3 + n4)),
                },
            },
        },
    }
}

impl ServerBoundHandshakePacket {
    pub fn id(&self) -> (r: i32)
        ensures
            r == 0x00,
    {
        0x00
    }

    pub fn encode(&self, buf: &mut ByteBuf)
        requires
            handshake_wf(*self),
        ensures
            final(buf).data@ == old(buf).data@ + handshake_body(*self),
            final(buf).read_offset == old(buf).read_offset,
    {
        buf.write_varint(self.protocol_version);
        buf.write_string(self.server_address.as_str());
        buf.write_u16(self.server_port);
        buf.write_varint(self.next_state);
        proof {
            assert(buf.data@ =~= old(buf).data@ + handshake_body(*self));
        }
    }

    pub fn decode(buf: &mut ByteBuf) -> (r: Result<Self, WireError>)
        requires
            old(buf).wf(),
        ensures
            final(buf).wf(),
            final(buf).data@ == old(buf).data@,
            match r {
                Ok(p) => parse_handshake(old(buf).rem()) == Ok::<_, WireError>(
                    (
                        (p.protocol_version, p.server_address@, p.server_port, p.next_state),
                        final(buf).read_offset - old(buf).read_offset,
                    ),
                ),
                Err(e) => parse_handshake(old(buf).rem()) == Err::<
                    ((i32, Seq<char>, u16, i32), int),
                    _,
                >(e) && final(buf).read_offset == old(buf).read_offset,
            },
    {
        let start = buf.read_offset;
        let pv = match buf.read_varint() {
            Ok(v) => v,
            Err(e) => {
                return Err(e);
            },
        };
        let ghost n1 = buf.read_offset - start;
        proof {
            crate::wire::lemma_parse_varint_consumed(old(buf).rem());
            assert(buf.rem() =~= old(buf).rem().skip(n1));
        }
        let addr = match buf.read_string() {
            Ok(v) => v,
            Err(e) => {
                buf.read_offset = start;
                return Err(e);
            },
        };
        let ghost n2 = buf.read_offset - start - n1;
        proof {
            crate::wire::lemma_parse_string_consumed(old(buf).rem().skip(n1));
            assert(buf.rem() =~= old(buf).rem().skip(n1 + n2));
        }
        let port = match buf.read_u16() {
            Ok(v) => v,
            Err(e) => {
                buf.read_offset = start;
                return Err(e);
            },
        };
        proof {
            assert(buf.rem() =~= old(buf).rem().skip(n1 + n2 + 2));
        }
        let ns = match buf.read_varint() {
            Ok(v) => v,
            Err(e) => {
                buf.read_offset = start;
                return Err(e);
            },
        };
        Ok(Self { protocol_version: pv, server_address: addr, server_port: port, next_state: ns })
    }
}

impl ServerHandshakePacketFactory {
    pub fn from_id(&self, id: i32) -> (r: Option<EServerHandshakePacket>)
        ensures
            r == if id == 0x00 {
                Some(EServerHandshakePacket::ServerBoundHandshakePacket)
            } else {
                None::<EServerHandshakePacket>
            },
    {
        match id {
            0x00 => Some(EServerHandshakePacket::ServerBoundHandshakePacket),
            _ => None,
        }
    }

    /// Decodes the packet with the given id; the only legal id in the
    /// Handshake phase is 0x00.
    pub fn decode(&self, id: i32, buf: &mut ByteBuf) -> (r: Result<
        ServerBoundHandshakePacket,
        WireError,
    >)
        requires
            old(buf).wf(),
        ensures
            final(buf).wf(),
            final(buf).data@ == old(buf).data@,
            if id == 0x00 {
                match r {
                    Ok(p) => parse_handshake(old(buf).rem()) == Ok::<_, WireError>(
                        (
                            (p.protocol_version, p.server_address@, p.server_port, p.next_state),
                            final(buf).read_offset - old(buf).read_offset,
                        ),
                    ),
                    Err(e) => parse_handshake(old(buf).rem()) == Err::<
                        ((i32, Seq<char>, u16, i32), int),
                        _,
                    >(e) && final(buf).read_offset == old(buf).read_offset,
                }
            } else {
                r == Err::<ServerBoundHandshakePacket, _>(WireError::UnknownPacketId(0, id))
                    && final(buf).read_offset == old(buf).read_offset
            },
    {
        if id == 0x00 {
            ServerBoundHandshakePacket::decode(buf)
        } else {
            Err(WireError::UnknownPacketId(0, id))
        }
    }
}

} // verus!
