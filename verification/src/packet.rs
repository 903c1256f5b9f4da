//! The packet phase enumeration, the keep-alive packet, and the registry
//! that maps a (phase, id) pair to the decoder for the corresponding
//! serverbound packet.

use crate::bytebuf::ByteBuf;
use crate::configuration::ServerBoundConfigurationAcknowledgeFinishConfiguration;
use crate::handshake::ServerBoundHandshakePacket;
use crate::login::ServerBoundLoginPacket;
use crate::status::ServerBoundStatusPacket;
use crate::wire::{be64, parse_i64, u64_of_i64, WireError};
use vstd::prelude::*;

verus! {

/// The phase of a connection: an ordered, one-directional progression.
/// Status and Login are siblings reached from Handshake depending on the
/// client-declared next state; Configuration and Play are only reachable
/// through Login.
#[derive(Clone, Copy, Debug, PartialEq, Eq, Structural)]
pub enum PacketStatus {
    Handshake,
    Status,
    Login,
    Configuration,
    Play,
}

/// The numeric id of a phase, as the handshake packet declares it.
pub open spec fn phase_id(p: PacketStatus) -> i32 {
    match p {
        PacketStatus::Handshake => 0,
        PacketStatus::Status => 1,
        PacketStatus::Login => 2,
        PacketStatus::Configuration => 3,
        PacketStatus::Play => 4,
    }
}

pub open spec fn phase_from_id(id: i32) -> Option<PacketStatus> {
    if id == 0 {
        Some(PacketStatus::Handshake)
    } else if id == 1 {
        Some(PacketStatus::Status)
    } else if id == 2 {
        Some(PacketStatus::Login)
    } else if id == 3 {
        Some(PacketStatus::Configuration)
    } else if id == 4 {
        Some(PacketStatus::Play)
    } else {
        None
    }
}

impl PacketStatus {
    pub fn from_id(id: i32) -> (r: Option<PacketStatus>)
        ensures
            r == phase_from_id(id),
    {
        match id {
            0 => Some(PacketStatus::Handshake),
            1 => Some(PacketStatus::Status),
            2 => Some(PacketStatus::Login),
            3 => Some(PacketStatus::Configuration),
            4 => Some(PacketStatus::Play),
            _ => None,
        }
    }

    pub fn id(&self) -> (r: i32)
        ensures
            r == phase_id(*self),
    {
        match self {
            PacketStatus::Handshake => 0,
            PacketStatus::Status => 1,
            PacketStatus::Login => 2,
            PacketStatus::Configuration => 3,
            PacketStatus::Play => 4,
        }
    }
}

/// The keep-alive packet: an 8-byte payload that the peer echoes back.
#[derive(Debug)]
pub struct ClientBoundPlayKeepAlivePacket {
    pub id: i64,
}

impl Default for ClientBoundPlayKeepAlivePacket {
    fn default() -> (r: Self)
        ensures
            r.id == 0,
    {
        Self { id: 0 }
    }
}

pub open spec fn keep_alive_body(p: ClientBoundPlayKeepAlivePacket) -> Seq<u8> {
    be64(u64_of_i64(p.id))
}

impl ClientBoundPlayKeepAlivePacket {
    pub fn id(&self) -> (r: i32)
        ensures
            r == 0x27,
    {
        0x27
    }

    pub fn encode(&self, buf: &mut ByteBuf)
        ensures
            final(buf).data@ == old(buf).data@ + keep_alive_body(*self),
            final(buf).read_offset == old(buf).read_offset,
    {
        buf.write_i64(self.id);
    }

    pub fn decode(buf: &mut ByteBuf) -> (r: Result<Self, WireError>)
        requires
            old(buf).wf(),
        ensures
            final(buf).wf(),
            final(buf).data@ == old(buf).data@,
            match r {
                Ok(p) => parse_i64(old(buf).rem()) == Ok::<_, WireError>(
                    (p.id, final(buf).read_offset - old(buf).read_offset),
                ),
                Err(e) => parse_i64(old(buf).rem()) == Err::<(i64, int), _>(e) && final(buf).read_offset == old(buf).read_offset,
            },
    {
        match buf.read_i64() {
            Ok(v) => Ok(Self { id: v }),
            Err(e) => Err(e),
        }
    }
}

/// A decoded serverbound packet, tagged with the phase it belongs to.  A
/// variant never exists outside its declared phase.
#[derive(Debug)]
pub enum ServerBoundPacket {
    Handshake(ServerBoundHandshakePacket),
    Status(ServerBoundStatusPacket),
    Login(ServerBoundLoginPacket),
    Configuration(ServerBoundConfigurationAcknowledgeFinishConfiguration),
}

/// The registry: a pure map from (phase, id) to the decoder for the
/// corresponding serverbound packet shape, total over the legal ids of each
/// phase and an explicit `UnknownPacketId` otherwise.
pub struct PacketManager {}

impl PacketManager {
    /// Decodes a frame's payload as the packet with the given id in the
    /// given phase.  An id that is not legal in the phase is reported as
    /// `UnknownPacketId(phase, id)`, never a panic; Play has no serverbound
    /// packets in this registry (the engine answers keep-alives from the
    /// raw frame instead).
    pub fn decode(status: PacketStatus, id: i32, buf: &mut ByteBuf) -> (r: Result<
        ServerBoundPacket,
        WireError,
    >)
        requires
            old(buf).wf(),
        ensures
            final(buf).wf(),
            final(buf).data@ == old(buf).data@,
            match status {
                PacketStatus::Handshake => {
                    if id == 0x00 {
                        match r {
                            Ok(p) => p matches ServerBoundPacket::Handshake(h)
                                && crate::handshake::parse_handshake(old(buf).rem()) == Ok::<
                                _,
                                WireError,
                            >(
                                (
                                    (h.protocol_version, h.server_address@, h.server_port,
                                    h.next_state),
                                    final(buf).read_offset - old(buf).read_offset,
                                ),
                            ),
                            Err(e) => crate::handshake::parse_handshake(old(buf).rem())
                                == Err::<((i32, Seq<char>, u16, i32), int), _>(e) && final(buf).read_offset == old(buf).read_offset,
                        }
                    } else {
                        r == Err::<ServerBoundPacket, _>(WireError::UnknownPacketId(0, id))
                            && final(buf).read_offset == old(buf).read_offset
                    }
                },
                PacketStatus::Status => {
                    if id == 0x00 {
                        r matches Ok(p) && p matches ServerBoundPacket::Status(
                            crate::status::ServerBoundStatusPacket::Request(_),
                        ) && final(buf).read_offset == old(buf).read_offset
                    } else if id == 0x01 {
                        match r {
                            Ok(p) => p matches ServerBoundPacket::Status(
                                crate::status::ServerBoundStatusPacket::Ping(q),
                            ) && parse_i64(old(buf).rem()) == Ok::<_, WireError>(
                                (q.timestamp, final(buf).read_offset - old(buf).read_offset),
                            ),
                            Err(e) => parse_i64(old(buf).rem()) == Err::<(i64, int), _>(e)
                                && final(buf).read_offset == old(buf).read_offset,
                        }
                    } else {
                        r == Err::<ServerBoundPacket, _>(WireError::UnknownPacketId(1, id))
                            && final(buf).read_offset == old(buf).read_offset
                    }
                },
                PacketStatus::Login => {
                    if id == 0x00 {
                        match r {
                            Ok(p) => p matches ServerBoundPacket::Login(
                                crate::login::ServerBoundLoginPacket::Start(q),
                            ) && crate::login::parse_login_start(old(buf).rem()) == Ok::<
                                _,
                                WireError,
                            >(((q.name@, q.uuid), final(buf).read_offset - old(buf).read_offset)),
                            Err(e) => crate::login::parse_login_start(old(buf).rem()) == Err::<
                                ((Seq<char>, u128), int),
                                _,
                            >(e) && final(buf).read_offset == old(buf).read_offset,
                        }
                    } else if id == 0x03 {
                        r matches Ok(p) && p matches ServerBoundPacket::Login(
                            crate::login::ServerBoundLoginPacket::Acknowledged(_),
                        ) && final(buf).read_offset == old(buf).read_offset
                    } else {
                        r == Err::<ServerBoundPacket, _>(WireError::UnknownPacketId(2, id))
                            && final(buf).read_offset == old(buf).read_offset
                    }
                },
                PacketStatus::Configuration => {
                    if id == 0x03 {
                        r matches Ok(p) && p matches ServerBoundPacket::Configuration(_) && final(buf).read_offset == old(buf).read_offset
                    } else {
                        r == Err::<ServerBoundPacket, _>(WireError::UnknownPacketId(3, id))
                            && final(buf).read_offset == old(buf).read_offset
                    }
                },
                PacketStatus::Play => {
                    r == Err::<ServerBoundPacket, _>(WireError::UnknownPacketId(4, id)) && final(buf).read_offset == old(buf).read_offset
                },
            },
    {
        match status {
            PacketStatus::Handshake => {
                let f = crate::handshake::ServerHandshakePacketFactory {  };
                match f.decode(id, buf) {
                    Ok(p) => Ok(ServerBoundPacket::Handshake(p)),
                    Err(e) => Err(e),
                }
            },
            PacketStatus::Status => {
                let f = crate::status::ServerStatusPacketFactory {  };
                match f.decode(id, buf) {
                    Ok(p) => Ok(ServerBoundPacket::Status(p)),
                    Err(e) => Err(e),
                }
            },
            PacketStatus::Login => {
                let f = crate::login::ServerLoginPacketFactory {  };
                match f.decode(id, buf) {
                    Ok(p) => Ok(ServerBoundPacket::Login(p)),
                    Err(e) => Err(e),
                }
            },
            PacketStatus::Configuration => {
                let f = crate::configuration::ServerConfigurationPacketFactory {  };
                match f.decode(id, buf) {
                    Ok(p) => Ok(ServerBoundPacket::Configuration(p)),
                    Err(e) => Err(e),
                }
            },
            PacketStatus::Play => Err(WireError::UnknownPacketId(4, id)),
        }
    }
}

} // verus!
