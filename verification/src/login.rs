//! The Login phase: login start (name and 128-bit id), the empty login
//! acknowledgement, and the clientbound login success that echoes the
//! identity together with a signed-property list.

use crate::bytebuf::ByteBuf;
use crate::property::{
    parse_properties, properties_enc, props_views, props_wf, Property, PropertyView,
};
use crate::wire::{be128, parse_string, parse_u128, string_enc, WireError};
use vstd::prelude::*;
use vstd::utf8::encode_utf8;

verus! {

#[derive(Clone, Copy, Debug, PartialEq, Eq, Structural)]
pub enum EServerLoginPacket {
    ServerBoundLoginStartPacket,
    ServerBoundLoginLoginAcknowledgedPacket,
}

pub struct ServerLoginPacketFactory {}

/// Relies on `uuid::Uuid::new_v4`: a freshly generated random version-4
/// identifier, returned as its 128-bit value.  Only the version nibble is
/// promised: the high nibble of the seventh byte, bits 76 to 79 of the
/// value, is 4.  The rest is random.
#[verifier::external_body]
fn random_uuid() -> (r: u128)
    ensures
        (r / 0x10000000000000000000) % 16 == 4,
{
    uuid::Uuid::new_v4().as_u128()
}

// -- serverbound --

/// Login start: the display name and the 128-bit identifier the client
/// claims.
#[derive(Debug)]
pub struct ServerBoundLoginStartPacket {
    pub name: String,
    pub uuid: u128,
}

impl Default for ServerBoundLoginStartPacket {
    fn default() -> (r: Self)
        ensures
            r.name@ == Seq::<char>::empty(),
    {
        Self { name: String::new(), uuid: random_uuid() }
    }
}

/// The name's byte length fits the 32-bit signed length prefix.
pub open spec fn login_start_wf(p: ServerBoundLoginStartPacket) -> bool {
    encode_utf8(p.name@).len() <= 0x7FFFFFFF
}

pub open spec fn login_start_body(p: ServerBoundLoginStartPacket) -> Seq<u8> {
    string_enc(p.name@) + be128(p.uuid)
}

pub open spec fn parse_login_start(s: Seq<u8>) -> Result<((Seq<char>, u128), int), WireError> {
    match parse_string(s) {
        Err(e) => Err(e),
        Ok((name, n1)) => match parse_u128(s.skip(n1)) {
            Err(e) => Err(e),
            Ok((u, n2)) => Ok(((name, u), n1 + n2)),
        },
    }
}

impl ServerBoundLoginStartPacket {
    pub fn id(&self) -> (r: i32)
        ensures
            r == 0x00,
    {
        0x00
    }

    pub fn encode(&self, buf: &mut ByteBuf)
        requires
            login_start_wf(*self),
        ensures
            final(buf).data@ == old(buf).data@ + login_start_body(*self),
            final(buf).read_offset == old(buf).read_offset,
    {
        buf.write_string(self.name.as_str());
        buf.write_uuid(self.uuid);
        proof {
            assert(buf.data@ =~= old(buf).data@ + login_start_body(*self));
        }
    }

    pub fn decode(buf: &mut ByteBuf) -> (r: Result<Self, WireError>)
        requires
            old(buf).wf(),
        ensures
            final(buf).wf(),
            final(buf).data@ == old(buf).data@,
            match r {
                Ok(p) => parse_login_start(old(buf).rem()) == Ok::<_, WireError>(
                    ((p.name@, p.uuid), final(buf).read_offset - old(buf).read_offset),
                ),
                Err(e) => parse_login_start(old(buf).rem()) == Err::<((Seq<char>, u128), int), _>(
                    e,
                ) && final(buf).read_offset == old(buf).read_offset,
            },
    {
        let start = buf.read_offset;
        let name = match buf.read_string() {
            Ok(v) => v,
            Err(e) => {
                return Err(e);
            },
        };
        let ghost n1 = buf.read_offset - start;
        proof {
            crate::wire::lemma_parse_string_consumed(old(buf).rem());
            assert(buf.rem() =~= old(buf).rem().skip(n1));
        }
        let uuid = match buf.read_uuid() {
            Ok(v) => v,
            Err(e) => {
                buf.read_offset = start;
                return Err(e);
            },
        };
        Ok(Self { name, uuid })
    }
}

/// Login acknowledged: an empty payload.
#[derive(Debug)]
pub struct ServerBoundLoginLoginAcknowledgedPacket {}

impl Default for ServerBoundLoginLoginAcknowledgedPacket {
    fn default() -> (r: Self) {
        Self {  }
    }
}

impl ServerBoundLoginLoginAcknowledgedPacket {
    pub fn id(&self) -> (r: i32)
        ensures
            r == 0x03,
    {
        0x03
    }

    pub fn encode(&self, buf: &mut ByteBuf)
        ensures
            final(buf).data@ == old(buf).data@,
            final(buf).read_offset == old(buf).read_offset,
    {
    }

    pub fn decode(buf: &mut ByteBuf) -> (r: Self)
        ensures
            *final(buf) == *old(buf),
    {
        Self {  }
    }
}

/// A decoded serverbound Login-phase packet.
#[derive(Debug)]
pub enum ServerBoundLoginPacket {
    Start(ServerBoundLoginStartPacket),
    Acknowledged(ServerBoundLoginLoginAcknowledgedPacket),
}

// -- clientbound --

/// Login success: the identity echoed back to the client, with a
/// signed-property list.
pub struct ClientBoundLoginLoginSuccessPacket {
    pub uuid: u128,
    pub username: String,
    pub properties: Vec<Property>,
}

impl Default for ClientBoundLoginLoginSuccessPacket {
    fn default() -> (r: Self)
        ensures
            r.username@ == Seq::<char>::empty(),
            r.properties@.len() == 1,
            r.properties@[0].name@ == "textures"@,
            r.properties@[0].signature is None,
    {
        Self {
            uuid: random_uuid(),
            username: String::new(),
            properties: textures_property_list(),
        }
    }
}

/// The default signed-property list: a single `textures` entry with a
/// base64-encoded skin blob and no signature.
pub fn textures_property_list() -> (r: Vec<Property>)
    ensures
        r@.len() == 1,
        r@[0].name@ == "textures"@,
        r@[0].value@
            == "ewogICJ0aW1lc3RhbXAiIDogMTc0MTA5NzkwNjQ2OCwKICAicHJvZmlsZUlkIiA6ICI3ZmQyZmQyY2I2ZDc0ZGRmYjY0MjZjMzI5Mjk2YWRmOCIsCiAgInByb2ZpbGVOYW1lIiA6ICJkYW5kYW4yNjExIiwKICAidGV4dHVyZXMiIDogewogICAgIlNLSU4iIDogewogICAgICAidXJsIiA6ICJodHRwOi8vdGV4dHVyZXMubWluZWNyYWZ0Lm5ldC90ZXh0dXJlLzc3YzQ2MzAyYWU2MmRhOTI0MDVmMjRmZGJjN2FmZGFhOTc3NzRiMGRkODg5MjBkODk3MjNiYTlmMDhiZWI5MDkiCiAgICB9CiAgfQp9"@,
        r@[0].signature is None,
{
    let mut v: Vec<Property> = Vec::new();
    v.push(
        Property {
            name: "textures".to_owned(),
            value:
                "ewogICJ0aW1lc3RhbXAiIDogMTc0MTA5NzkwNjQ2OCwKICAicHJvZmlsZUlkIiA6ICI3ZmQyZmQyY2I2ZDc0ZGRmYjY0MjZjMzI5Mjk2YWRmOCIsCiAgInByb2ZpbGVOYW1lIiA6ICJkYW5kYW4yNjExIiwKICAidGV4dHVyZXMiIDogewogICAgIlNLSU4iIDogewogICAgICAidXJsIiA6ICJodHRwOi8vdGV4dHVyZXMubWluZWNyYWZ0Lm5ldC90ZXh0dXJlLzc3YzQ2MzAyYWU2MmRhOTI0MDVmMjRmZGJjN2FmZGFhOTc3NzRiMGRkODg5MjBkODk3MjNiYTlmMDhiZWI5MDkiCiAgICB9CiAgfQp9".to_owned(),
            signature: None,
        },
    );
    v
}

/// The string byte lengths and the property count fit their 32-bit signed
/// prefixes.
pub open spec fn login_success_wf(p: ClientBoundLoginLoginSuccessPacket) -> bool {
    &&& encode_utf8(p.username@).len() <= 0x7FFFFFFF
    &&& p.properties@.len() <= 0x7FFFFFFF
    &&& props_wf(props_views(p.properties@))
}

pub open spec fn login_success_body(p: ClientBoundLoginLoginSuccessPacket) -> Seq<u8> {
    be128(p.uuid) + string_enc(p.username@) + properties_enc(props_views(p.properties@))
}

impl ClientBoundLoginLoginSuccessPacket {
    pub fn id(&self) -> (r: i32)
        ensures
            r == 0x02,
    {
        0x02
    }

    pub fn encode(&self, buf: &mut ByteBuf)
        requires
            login_success_wf(*self),
        ensures
            final(buf).data@ == old(buf).data@ + login_success_body(*self),
            final(buf).read_offset == old(buf).read_offset,
    {
        buf.write_uuid(self.uuid);
        buf.write_string(self.username.as_str());
        buf.write_properties(self.properties.as_slice());
        proof {
            assert(buf.data@ =~= old(buf).data@ + login_success_body(*self));
        }
    }

    pub fn decode(buf: &mut ByteBuf) -> (r: Result<Self, WireError>)
        requires
            old(buf).wf(),
        ensures
            final(buf).wf(),
            final(buf).data@ == old(buf).data@,
            match r {
                Ok(p) => parse_login_success(old(buf).rem()) == Ok::<_, WireError>(
                    (
                        (p.uuid, p.username@, props_views(p.properties@)),
                        final(buf).read_offset - old(buf).read_offset,
                    ),
                ),
                Err(e) => parse_login_success(old(buf).rem()) == Err::<
                    ((u128, Seq<char>, Seq<PropertyView>), int),
                    _,
                >(e) && final(buf).read_offset == old(buf).read_offset,
            },
    {
        let start = buf.read_offset;
        let uuid = match buf.read_uuid() {
            Ok(v) => v,
            Err(e) => {
                return Err(e);
            },
        };
        proof {
            assert(buf.rem() =~= old(buf).rem().skip(16));
        }
        let username = match buf.read_string() {
            Ok(v) => v,
            Err(e) => {
                buf.read_offset = start;
                return Err(e);
            },
        };
        let ghost n2 = buf.read_offset - start - 16;
        proof {
            crate::wire::lemma_parse_string_consumed(old(buf).rem().skip(16));
            assert(buf.rem() =~= old(buf).rem().skip(16 + n2));
        }
        let properties = match buf.read_properties() {
            Ok(v) => v,
            Err(e) => {
                buf.read_offset = start;
                return Err(e);
            },
        };
        Ok(Self { uuid, username, properties })
    }
}

pub open spec fn parse_login_success(s: Seq<u8>) -> Result<
    ((u128, Seq<char>, Seq<PropertyView>), int),
    WireError,
> {
    match parse_u128(s) {
        Err(e) => Err(e),
        Ok((u, n1)) => match parse_string(s.skip(n1)) {
            Err(e) => Err(e),
            Ok((name, n2)) => match parse_properties(s.skip(n1 + n2)) {
                Err(e) => Err(e),
                Ok((ps, n3)) => Ok(((u, name, ps), n1 + n2 + n3)),
            },
        },
    }
}

impl ServerLoginPacketFactory {
    pub fn from_id(&self, id: i32) -> (r: Option<EServerLoginPacket>)
        ensures
            r == if id == 0x00 {
                Some(EServerLoginPacket::ServerBoundLoginStartPacket)
            } else if id == 0x03 {
                Some(EServerLoginPacket::ServerBoundLoginLoginAcknowledgedPacket)
            } else {
                None::<EServerLoginPacket>
            },
    {
        match id {
            0x00 => Some(EServerLoginPacket::ServerBoundLoginStartPacket),
            0x03 => Some(EServerLoginPacket::ServerBoundLoginLoginAcknowledgedPacket),
            _ => None,
        }
    }

    /// Decodes the packet with the given id; the legal ids in the Login
    /// phase are 0x00 (login start) and 0x03 (login acknowledged).
    pub fn decode(&self, id: i32, buf: &mut ByteBuf) -> (r: Result<
        ServerBoundLoginPacket,
        WireError,
    >)
        requires
            old(buf).wf(),
        ensures
            final(buf).wf(),
            final(buf).data@ == old(buf).data@,
            if id == 0x00 {
                match r {
                    Ok(p) => p matches ServerBoundLoginPacket::Start(q) && parse_login_start(
                        old(buf).rem(),
                    ) == Ok::<_, WireError>(
                        ((q.name@, q.uuid), final(buf).read_offset - old(buf).read_offset),
                    ),
                    Err(e) => parse_login_start(old(buf).rem()) == Err::<
                        ((Seq<char>, u128), int),
                        _,
                    >(e) && final(buf).read_offset == old(buf).read_offset,
                }
            } else if id == 0x03 {
                r matches Ok(p) && p matches ServerBoundLoginPacket::Acknowledged(_) && final(buf).read_offset == old(buf).read_offset
            } else {
                r == Err::<ServerBoundLoginPacket, _>(WireError::UnknownPacketId(2, id)) && final(buf).read_offset == old(buf).read_offset
            },
    {
        if id == 0x00 {
            match ServerBoundLoginStartPacket::decode(buf) {
                Ok(p) => Ok(ServerBoundLoginPacket::Start(p)),
                Err(e) => Err(e),
            }
        } else if id == 0x03 {
            Ok(
                ServerBoundLoginPacket::Acknowledged(
                    ServerBoundLoginLoginAcknowledgedPacket::decode(buf),
                ),
            )
        } else {
            Err(WireError::UnknownPacketId(2, id))
        }
    }
}

} // verus!
