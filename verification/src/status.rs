//! The Status phase: the empty status request, the status response carrying
//! a JSON summary, and the ping/pong timestamp echo.

use crate::bytebuf::ByteBuf;
use crate::json::{append_decimal, append_escaped, dec_int, json_bool, json_escaped};
use crate::wire::{be64, parse_i64, u64_of_i64, varint_enc, WireError};
use vstd::prelude::*;
use vstd::string::StringSliceAdditionalSpecFns;
use vstd::utf8::encode_utf8;

verus! {

#[derive(Clone, Copy, Debug, PartialEq, Eq, Structural)]
pub enum EServerStatusPacket {
    ServerBoundStatusRequestPacket,
    ServerBoundStatusPingPacket,
}

pub struct ServerStatusPacketFactory {}

// -- serverbound --

/// The status request: an empty payload.
#[derive(Debug)]
pub struct ServerBoundStatusRequestPacket {}

impl Default for ServerBoundStatusRequestPacket {
    fn default() -> (r: Self) {
        Self {  }
    }
}

impl ServerBoundStatusRequestPacket {
    pub fn id(&self) -> (r: i32)
        ensures
            r == 0x00,
    {
        0x00
    }

    pub fn encode(&self, buf: &mut ByteBuf)
        ensures
            final(buf).data@ == old(buf).data@,
            final(buf).read_offset == old(buf).read_offset,
    {
    }

    pub fn decode(buf: &mut ByteBuf) -> (r: Self)
        ensures
            *final(buf) == *old(buf),
    {
        Self {  }
    }
}

/// The ping request: an 8-byte timestamp the client expects echoed back.
#[derive(Debug)]
pub struct ServerBoundStatusPingPacket {
    pub timestamp: i64,
}

impl Default for ServerBoundStatusPingPacket {
    fn default() -> (r: Self)
        ensures
            r.timestamp == 0,
    {
        Self { timestamp: 0 }
    }
}

pub open spec fn status_ping_body(p: ServerBoundStatusPingPacket) -> Seq<u8> {
    be64(u64_of_i64(p.timestamp))
}

impl ServerBoundStatusPingPacket {
    pub fn id(&self) -> (r: i32)
        ensures
            r == 0x01,
    {
        0x01
    }

    pub fn encode(&self, buf: &mut ByteBuf)
        ensures
            final(buf).data@ == old(buf).data@ + status_ping_body(*self),
            final(buf).read_offset == old(buf).read_offset,
    {
        buf.write_i64(self.timestamp);
    }

    pub fn decode(buf: &mut ByteBuf) -> (r: Result<Self, WireError>)
        requires
            old(buf).wf(),
        ensures
            final(buf).wf(),
            final(buf).data@ == old(buf).data@,
            match r {
                Ok(p) => parse_i64(old(buf).rem()) == Ok::<_, WireError>(
                    (p.timestamp, final(buf).read_offset - old(buf).read_offset),
                ),
                Err(e) => parse_i64(old(buf).rem()) == Err::<(i64, int), _>(e) && final(buf).read_offset == old(buf).read_offset,
            },
    {
        match buf.read_i64() {
            Ok(v) => Ok(Self { timestamp: v }),
            Err(e) => Err(e),
        }
    }
}

/// A decoded serverbound Status-phase packet.
#[derive(Debug)]
pub enum ServerBoundStatusPacket {
    Request(ServerBoundStatusRequestPacket),
    Ping(ServerBoundStatusPingPacket),
}

// -- clientbound --

/// The version block of the status summary.
#[derive(Debug)]
pub struct ServerStatusResponseVersion {
    pub name: String,
    pub protocol: i32,
}

/// One entry of the player sample list.
#[derive(Debug)]
pub struct ServerStatusResponsePlayersSample {
    pub name: String,
    pub id: String,
}

/// The players block of the status summary.
#[derive(Debug)]
pub struct ServerStatusResponsePlayers {
    pub max: i32,
    pub online: i32,
    pub sample: Vec<ServerStatusResponsePlayersSample>,
}

/// The description block of the status summary.
#[derive(Debug)]
pub struct ServerStatusResponseDescription {
    pub text: String,
}

/// The status summary: version, players, description, and the secure-chat
/// flag, rendered as one JSON object on the wire.
#[derive(Debug)]
pub struct ServerStatusResponse {
    pub version: ServerStatusResponseVersion,
    pub players: ServerStatusResponsePlayers,
    pub description: ServerStatusResponseDescription,
    pub enforces_secure_chat: bool,
}

/// One player sample as JSON: `{"name":"...","id":"..."}`.
pub open spec fn sample_json(s: ServerStatusResponsePlayersSample) -> Seq<u8> {
    "{\"name\":\"".spec_bytes() + json_escaped(encode_utf8(s.name@)) + "\",\"id\":\"".spec_bytes()
        + json_escaped(encode_utf8(s.id@)) + "\"}".spec_bytes()
}

/// The sample list as JSON: the entries separated by commas.
pub open spec fn samples_json(ss: Seq<ServerStatusResponsePlayersSample>) -> Seq<u8>
    decreases ss.len(),
{
    if ss.len() == 0 {
        Seq::empty()
    } else if ss.len() == 1 {
        sample_json(ss[0])
    } else {
        sample_json(ss[0]) + seq![0x2Cu8] + samples_json(ss.skip(1))
    }
}

/// The whole status summary as one JSON object, byte for byte.
pub open spec fn status_json(r: ServerStatusResponse) -> Seq<u8> {
    "{\"version\":{\"name\":\"".spec_bytes() + json_escaped(encode_utf8(r.version.name@))
        + "\",\"protocol\":".spec_bytes() + dec_int(r.version.protocol as int)
        + "},\"players\":{\"max\":".spec_bytes() + dec_int(r.players.max as int)
        + ",\"online\":".spec_bytes() + dec_int(r.players.online as int)
        + ",\"sample\":[".spec_bytes() + samples_json(r.players.sample@)
        + "]},\"description\":{\"text\":\"".spec_bytes() + json_escaped(
        encode_utf8(r.description.text@),
    ) + "\"},\"enforcesSecureChat\":".spec_bytes() + json_bool(r.enforces_secure_chat)
        + "}".spec_bytes()
}

/// Adding one sample to a non-empty list appends a comma and its JSON.
proof fn lemma_samples_json_snoc(ss: Seq<ServerStatusResponsePlayersSample>, i: int)
    requires
        0 < i < ss.len(),
    ensures
        samples_json(ss.take(i + 1)) == samples_json(ss.take(i)) + seq![0x2Cu8] + sample_json(
            ss[i],
        ),
    decreases i,
{
    if i == 1 {
        assert(ss.take(2) =~= seq![ss[0], ss[1]]);
        assert(ss.take(2).skip(1) =~= seq![ss[1]]);
        assert(ss.take(1) =~= seq![ss[0]]);
        assert(samples_json(seq![ss[1]]) == sample_json(ss[1]));
        assert(samples_json(ss.take(2)) =~= samples_json(ss.take(1)) + seq![0x2Cu8] + sample_json(
            ss[1],
        ));
    } else {
        lemma_samples_json_snoc(ss.skip(1), i - 1);
        assert(ss.take(i + 1).skip(1) =~= ss.skip(1).take(i));
        assert(ss.take(i).skip(1) =~= ss.skip(1).take(i - 1));
        assert(ss.take(i + 1)[0] == ss[0] && ss.take(i)[0] == ss[0]);
        assert(ss.skip(1)[i - 1] == ss[i]);
        assert(samples_json(ss.take(i + 1)) =~= samples_json(ss.take(i)) + seq![0x2Cu8]
            + sample_json(ss[i]));
    }
}

/// Appends a literal piece of JSON syntax.
fn append_lit(out: &mut Vec<u8>, s: &[u8])
    ensures
        final(out)@ == old(out)@ + s@,
{
    let mut i: usize = 0;
    while i < s.len()
        invariant
            i <= s@.len(),
            out@ == old(out)@ + s@.take(i as int),
        decreases s@.len() - i,
    {
        out.push(s[i]);
        i = i + 1;
        proof {
            assert(out@ =~= old(out)@ + s@.take(i as int));
        }
    }
    proof {
        assert(s@.take(s@.len() as int) =~= s@);
    }
}

/// Renders the status summary as its JSON object.
#[verifier::rlimit(100)]
#[verifier::spinoff_prover]
pub fn render_status_json(r: &ServerStatusResponse) -> (out: Vec<u8>)
    ensures
        out@ == status_json(*r),
{
    let mut out: Vec<u8> = Vec::new();
    append_lit(&mut out, "{\"version\":{\"name\":\"".as_bytes());
    append_escaped(&mut out, r.version.name.as_str().as_bytes());
    append_lit(&mut out, "\",\"protocol\":".as_bytes());
    append_decimal(&mut out, r.version.protocol);
    append_lit(&mut out, "},\"players\":{\"max\":".as_bytes());
    append_decimal(&mut out, r.players.max);
    append_lit(&mut out, ",\"online\":".as_bytes());
    append_decimal(&mut out, r.players.online);
    append_lit(&mut out, ",\"sample\":[".as_bytes());
    let ghost mid = out@;
    let mut i: usize = 0;
    while i < r.players.sample.len()
        invariant
            i <= r.players.sample@.len(),
            out@ == mid + samples_json(r.players.sample@.take(i as int)),
        decreases r.players.sample@.len() - i,
    {
        if i > 0 {
            out.push(0x2C);
        }
        let s = &r.players.sample[i];
        append_lit(&mut out, "{\"name\":\"".as_bytes());
        append_escaped(&mut out, s.name.as_str().as_bytes());
        append_lit(&mut out, "\",\"id\":\"".as_bytes());
        append_escaped(&mut out, s.id.as_str().as_bytes());
        append_lit(&mut out, "\"}".as_bytes());
        i = i + 1;
        proof {
            if i == 1 {
                assert(r.players.sample@.take(1int) =~= seq![r.players.sample@[0]]);
                assert(samples_json(r.players.sample@.take(1int)) == sample_json(
                    r.players.sample@[0],
                ));
            } else {
                lemma_samples_json_snoc(r.players.sample@, i - 1);
            }
            assert(out@ =~= mid + samples_json(r.players.sample@.take(i as int)));
        }
    }
    proof {
        assert(r.players.sample@.take(r.players.sample@.len() as int) =~= r.players.sample@);
    }
    append_lit(&mut out, "]},\"description\":{\"text\":\"".as_bytes());
    append_escaped(&mut out, r.description.text.as_str().as_bytes());
    append_lit(&mut out, "\"},\"enforcesSecureChat\":".as_bytes());
    if r.enforces_secure_chat {
        append_lit(&mut out, "true".as_bytes());
    } else {
        append_lit(&mut out, "false".as_bytes());
    }
    append_lit(&mut out, "}".as_bytes());
    proof {
        assert(out@ =~= status_json(*r));
    }
    out
}

/// The status response packet: one length-prefixed string holding the JSON
/// summary.
#[derive(Debug)]
pub struct ClientBoundStatusResponsePacket {
    pub response: ServerStatusResponse,
}

/// The JSON body fits the 32-bit signed string length prefix.
pub open spec fn status_response_wf(p: ClientBoundStatusResponsePacket) -> bool {
    status_json(p.response).len() <= 0x7FFFFFFF
}

pub open spec fn status_response_body(p: ClientBoundStatusResponsePacket) -> Seq<u8> {
    varint_enc(status_json(p.response).len() as u32) + status_json(p.response)
}

impl Default for ClientBoundStatusResponsePacket {
    fn default() -> (r: Self)
        ensures
            r.response.version.name@ == "1.21.4"@,
            r.response.version.protocol == 769,
            r.response.players.max == 100,
            r.response.players.online == 0,
            r.response.players.sample@.len() == 0,
            r.response.description.text@ == "HANNNNNNNNNN"@,
            r.response.enforces_secure_chat == false,
    {
        ClientBoundStatusResponsePacket {
            response: ServerStatusResponse {
                version: ServerStatusResponseVersion {
                    name: "1.21.4".to_owned(),
                    protocol: 769,
                },
                players: ServerStatusResponsePlayers { max: 100, online: 0, sample: Vec::new() },
                description: ServerStatusResponseDescription {
                    text: "HANNNNNNNNNN".to_owned(),
                },
                enforces_secure_chat: false,
            },
        }
    }
}

impl ClientBoundStatusResponsePacket {
    pub fn id(&self) -> (r: i32)
        ensures
            r == 0x00,
    {
        0x00
    }

    pub fn encode(&self, buf: &mut ByteBuf)
        requires
            status_response_wf(*self),
        ensures
            final(buf).data@ == old(buf).data@ + status_response_body(*self),
            final(buf).read_offset == old(buf).read_offset,
    {
        let json = render_status_json(&self.response);
        buf.write_varint(json.len() as i32);
        buf.write_buf(json.as_slice());
        proof {
            assert(buf.data@ =~= old(buf).data@ + status_response_body(*self));
        }
    }
}

/// The pong: the 8-byte timestamp of the ping, echoed unchanged.
#[derive(Debug)]
pub struct ClientBoundStatusPingResponsePacket {
    pub timestamp: i64,
}

impl Default for ClientBoundStatusPingResponsePacket {
    fn default() -> (r: Self)
        ensures
            r.timestamp == 0,
    {
        Self { timestamp: 0 }
    }
}

pub open spec fn ping_response_body(p: ClientBoundStatusPingResponsePacket) -> Seq<u8> {
    be64(u64_of_i64(p.timestamp))
}

impl ClientBoundStatusPingResponsePacket {
    pub fn id(&self) -> (r: i32)
        ensures
            r == 0x01,
    {
        0x01
    }

    pub fn encode(&self, buf: &mut ByteBuf)
        ensures
            final(buf).data@ == old(buf).data@ + ping_response_body(*self),
            final(buf).read_offset == old(buf).read_offset,
    {
        buf.write_i64(self.timestamp);
    }

    pub fn decode(buf: &mut ByteBuf) -> (r: Result<Self, WireError>)
        requires
            old(buf).wf(),
        ensures
            final(buf).wf(),
            final(buf).data@ == old(buf).data@,
            match r {
                Ok(p) => parse_i64(old(buf).rem()) == Ok::<_, WireError>(
                    (p.timestamp, final(buf).read_offset - old(buf).read_offset),
                ),
                Err(e) => parse_i64(old(buf).rem()) == Err::<(i64, int), _>(e) && final(buf).read_offset == old(buf).read_offset,
            },
    {
        match buf.read_i64() {
            Ok(v) => Ok(Self { timestamp: v }),
            Err(e) => Err(e),
        }
    }
}

impl ServerStatusPacketFactory {
    pub fn from_id(&self, id: i32) -> (r: Option<EServerStatusPacket>)
        ensures
            r == if id == 0x00 {
                Some(EServerStatusPacket::ServerBoundStatusRequestPacket)
            } else if id == 0x01 {
                Some(EServerStatusPacket::ServerBoundStatusPingPacket)
            } else {
                None::<EServerStatusPacket>
            },
    {
        match id {
            0x00 => Some(EServerStatusPacket::ServerBoundStatusRequestPacket),
            0x01 => Some(EServerStatusPacket::ServerBoundStatusPingPacket),
            _ => None,
        }
    }

    /// Decodes the packet with the given id; the legal ids in the Status
    /// phase are 0x00 (request) and 0x01 (ping).
    pub fn decode(&self, id: i32, buf: &mut ByteBuf) -> (r: Result<
        ServerBoundStatusPacket,
        WireError,
    >)
        requires
            old(buf).wf(),
        ensures
            final(buf).wf(),
            final(buf).data@ == old(buf).data@,
            if id == 0x00 {
                r matches Ok(p) && p matches ServerBoundStatusPacket::Request(_) && final(buf).read_offset == old(buf).read_offset
            } else if id == 0x01 {
                match r {
                    Ok(p) => p matches ServerBoundStatusPacket::Ping(q) && parse_i64(
                        old(buf).rem(),
                    ) == Ok::<_, WireError>(
                        (q.timestamp, final(buf).read_offset - old(buf).read_offset),
                    ),
                    Err(e) => parse_i64(old(buf).rem()) == Err::<(i64, int), _>(e) && final(buf).read_offset == old(buf).read_offset,
                }
            } else {
                r == Err::<ServerBoundStatusPacket, _>(WireError::UnknownPacketId(1, id)) && final(buf).read_offset == old(buf).read_offset
            },
    {
        if id == 0x00 {
            Ok(ServerBoundStatusPacket::Request(ServerBoundStatusRequestPacket::decode(buf)))
        } else if id == 0x01 {
            match ServerBoundStatusPingPacket::decode(buf) {
                Ok(p) => Ok(ServerBoundStatusPacket::Ping(p)),
                Err(e) => Err(e),
            }
        } else {
            Err(WireError::UnknownPacketId(1, id))
        }
    }
}

} // verus!
