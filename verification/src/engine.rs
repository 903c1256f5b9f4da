//! The per-connection state machine.
//!
//! A connection owns one phase and, once Login succeeds, one identity.  For
//! every complete inbound frame the engine decides the next phase, whether
//! an identity is recorded, and the exact sequence of response packets; the
//! surrounding I/O layer only performs what the decision says.  Every
//! decision is a pure function of the current phase, the frame, and the
//! externally supplied content.

use crate::bytebuf::ByteBuf;
use crate::configuration::{
    ClientBoundConfigurationClientBoundKnownPacks, ClientBoundConfigurationFinishConfigurationPacket,
    ClientBoundConfigurationRegistryDataPacket, RegistryEntry,
};
use crate::login::{ClientBoundLoginLoginSuccessPacket, ServerBoundLoginPacket};
use crate::packet::{
    keep_alive_body, ClientBoundPlayKeepAlivePacket, PacketManager, PacketStatus,
    ServerBoundPacket,
};
use crate::play::{
    ClientBoundPlayChunkDataPacket, ClientBoundPlayGameEventPacket, ClientBoundPlayLoginPacket,
    ClientBoundPlayPlayerPosition, ClientBoundPlaySetChunkCenterPacket,
};
use crate::property::Property;
use crate::status::{
    ClientBoundStatusPingResponsePacket, ClientBoundStatusResponsePacket, ServerBoundStatusPacket,
    ServerStatusResponse,
};
use crate::wire::{parse_i64, parse_varint, string_enc, u32_of_i32, varint_enc, WireError};
use vstd::prelude::*;
use vstd::string::StringSliceAdditionalSpecFns;
use vstd::utf8::encode_utf8;

verus! {

/// The identity assigned during Login: the 128-bit id and the display
/// name.  Set exactly once per session and never mutated thereafter.
pub struct ClientIdentity {
    pub uuid: u128,
    pub username: String,
}

/// A packet the engine sends: one variant per clientbound shape in use.
pub enum ClientBoundPacket {
    StatusResponse(ClientBoundStatusResponsePacket),
    PingResponse(ClientBoundStatusPingResponsePacket),
    LoginSuccess(ClientBoundLoginLoginSuccessPacket),
    KnownPacks(ClientBoundConfigurationClientBoundKnownPacks),
    RegistryData(ClientBoundConfigurationRegistryDataPacket),
    FinishConfiguration(ClientBoundConfigurationFinishConfigurationPacket),
    PlayLogin(ClientBoundPlayLoginPacket),
    SetChunkCenter(ClientBoundPlaySetChunkCenterPacket),
    GameEvent(ClientBoundPlayGameEventPacket),
    KeepAlive(ClientBoundPlayKeepAlivePacket),
    ChunkData(ClientBoundPlayChunkDataPacket),
    PlayerPosition(ClientBoundPlayPlayerPosition),
}

/// The numeric id of a clientbound packet in its phase.
pub open spec fn packet_id(p: ClientBoundPacket) -> i32 {
    match p {
        ClientBoundPacket::StatusResponse(_) => 0x00,
        ClientBoundPacket::PingResponse(_) => 0x01,
        ClientBoundPacket::LoginSuccess(_) => 0x02,
        ClientBoundPacket::KnownPacks(_) => 0x0E,
        ClientBoundPacket::RegistryData(_) => 0x07,
        ClientBoundPacket::FinishConfiguration(_) => 0x03,
        ClientBoundPacket::PlayLogin(_) => 0x2C,
        ClientBoundPacket::SetChunkCenter(_) => 0x58,
        ClientBoundPacket::GameEvent(_) => 0x23,
        ClientBoundPacket::KeepAlive(_) => 0x27,
        ClientBoundPacket::ChunkData(_) => 0x28,
        ClientBoundPacket::PlayerPosition(_) => 0x42,
    }
}

/// The payload bytes of a clientbound packet, id excluded.
pub open spec fn packet_body(p: ClientBoundPacket) -> Seq<u8> {
    match p {
        ClientBoundPacket::StatusResponse(q) => crate::status::status_response_body(q),
        ClientBoundPacket::PingResponse(q) => crate::status::ping_response_body(q),
        ClientBoundPacket::LoginSuccess(q) => crate::login::login_success_body(q),
        ClientBoundPacket::KnownPacks(q) => crate::configuration::known_packs_body(q),
        ClientBoundPacket::RegistryData(q) => crate::configuration::registry_data_body(q),
        ClientBoundPacket::FinishConfiguration(_) => Seq::empty(),
        ClientBoundPacket::PlayLogin(q) => crate::play::play_login_body(q),
        ClientBoundPacket::SetChunkCenter(q) => crate::play::set_chunk_center_body(q),
        ClientBoundPacket::GameEvent(q) => crate::play::game_event_body(q),
        ClientBoundPacket::KeepAlive(q) => keep_alive_body(q),
        ClientBoundPacket::ChunkData(q) => crate::play::chunk_data_body(q),
        ClientBoundPacket::PlayerPosition(q) => crate::play::player_position_body(q),
    }
}

/// The packet's strings fit their length prefixes and the whole payload
/// fits the frame's 32-bit signed length prefix.
pub open spec fn packet_wf(p: ClientBoundPacket) -> bool {
    &&& match p {
        ClientBoundPacket::StatusResponse(q) => crate::status::status_response_wf(q),
        ClientBoundPacket::LoginSuccess(q) => crate::login::login_success_wf(q),
        ClientBoundPacket::KnownPacks(q) => crate::configuration::known_packs_wf(q),
        ClientBoundPacket::RegistryData(q) => crate::configuration::registry_data_wf(q),
        ClientBoundPacket::PlayLogin(q) => crate::play::play_login_wf(q),
        _ => true,
    }
    &&& varint_enc(u32_of_i32(packet_id(p))).len() + packet_body(p).len() <= 0x7FFFFFFF
}

/// A whole frame for a packet: the total length as a VarInt, the id as a
/// VarInt, then the payload.  The total counts the id encoding plus the
/// payload bytes.
pub open spec fn framed_enc(p: ClientBoundPacket) -> Seq<u8> {
    varint_enc(
        ((varint_enc(u32_of_i32(packet_id(p))) + packet_body(p)).len()) as u32,
    ) + varint_enc(u32_of_i32(packet_id(p))) + packet_body(p)
}

/// Encodes one packet as a complete frame, ready for the transport: total
/// length, id, payload.
pub fn framed_packet_bytes(p: &ClientBoundPacket) -> (r: Vec<u8>)
    requires
        packet_wf(*p),
    ensures
        r@ == framed_enc(*p),
{
    let mut content = ByteBuf::new();
    match p {
        ClientBoundPacket::StatusResponse(q) => {
            content.write_varint(q.id());
            q.encode(&mut content);
        },
        ClientBoundPacket::PingResponse(q) => {
            content.write_varint(q.id());
            q.encode(&mut content);
        },
        ClientBoundPacket::LoginSuccess(q) => {
            content.write_varint(q.id());
            q.encode(&mut content);
        },
        ClientBoundPacket::KnownPacks(q) => {
            content.write_varint(q.id());
            q.encode(&mut content);
        },
        ClientBoundPacket::RegistryData(q) => {
            content.write_varint(q.id());
            q.encode(&mut content);
        },
        ClientBoundPacket::FinishConfiguration(q) => {
            content.write_varint(q.id());
            q.encode(&mut content);
        },
        ClientBoundPacket::PlayLogin(q) => {
            content.write_varint(q.id());
            q.encode(&mut content);
        },
        ClientBoundPacket::SetChunkCenter(q) => {
            content.write_varint(q.id());
            q.encode(&mut content);
        },
        ClientBoundPacket::GameEvent(q) => {
            content.write_varint(q.id());
            q.encode(&mut content);
        },
        ClientBoundPacket::KeepAlive(q) => {
            content.write_varint(q.id());
            q.encode(&mut content);
        },
        ClientBoundPacket::ChunkData(q) => {
            content.write_varint(q.id());
            q.encode(&mut content);
        },
        ClientBoundPacket::PlayerPosition(q) => {
            content.write_varint(q.id());
            q.encode(&mut content);
        },
    }
    let total = content.len();
    let mut out = ByteBuf::new();
    out.write_varint(total as i32);
    let payload = content.read_all();
    out.write_buf(payload.as_slice());
    let r = out.read_all();
    proof {
        assert(r@ =~= framed_enc(*p));
    }
    r
}

/// The length of a VarInt encoding, computed without writing it.
fn varint_len_of(v: u32) -> (r: usize)
    ensures
        r == varint_enc(v).len(),
{
    proof {
        crate::wire::lemma_varint_enc_len(v);
    }
    if v < 0x80 {
        1
    } else if v < 0x4000 {
        2
    } else if v < 0x200000 {
        3
    } else if v < 0x10000000 {
        4
    } else {
        5
    }
}

/// The encoded length of one length-prefixed string, or `None` when its
/// bytes do not fit the 32-bit signed length prefix.
fn str_enc_len(s: &str) -> (r: Option<u128>)
    ensures
        match r {
            Some(n) => encode_utf8(s@).len() <= 0x7FFFFFFF && n == string_enc(s@).len() && n
                <= 0x80000004,
            None => encode_utf8(s@).len() > 0x7FFFFFFF,
        },
{
    let b = s.as_bytes();
    let len = b.len();
    proof {
        broadcast use vstd::slice::axiom_spec_len;

        assert(len == encode_utf8(s@).len());
    }
    if len > 0x7FFFFFFF {
        return None;
    }
    proof {
        crate::wire::lemma_varint_enc_len(len as u32);
    }
    let vl = varint_len_of(len as u32);
    Some((vl as u128) + (len as u128))
}

/// Whether a status response can be framed.
fn status_response_fits(q: &ClientBoundStatusResponsePacket) -> (r: bool)
    ensures
        r == (crate::status::status_response_wf(*q) && 1 + crate::status::status_response_body(
            *q,
        ).len() <= 0x7FFFFFFF),
{
    let json = crate::status::render_status_json(&q.response);
    let jlen = json.len();
    if jlen > 0x7FFFFFFF {
        return false;
    }
    let vl = varint_len_of(jlen as u32);
    1 + (vl as u128) + (jlen as u128) <= 0x7FFFFFFF
}

/// Whether a login success can be framed.
fn login_success_fits(q: &ClientBoundLoginLoginSuccessPacket) -> (r: bool)
    ensures
        r == (crate::login::login_success_wf(*q) && 1 + crate::login::login_success_body(
            *q,
        ).len() <= 0x7FFFFFFF),
{
    let ulen = match str_enc_len(q.username.as_str()) {
        Some(n) => n,
        None => {
            return false;
        },
    };
    let cnt = q.properties.len();
    if cnt > 0x7FFFFFFF {
        return false;
    }
    let ghost views = crate::property::props_views(q.properties@);
    let mut total: u128 = 0;
    let mut i: usize = 0;
    while i < cnt
        invariant
            cnt == q.properties@.len(),
            i <= cnt,
            total <= 0x7FFFFFFF,
            total == crate::property::properties_body_enc(views.take(i as int)).len(),
            forall|j: int| 0 <= j < i ==> crate::property::property_wf(#[trigger] views[j]),
        decreases cnt - i,
    {
        let prop = &q.properties[i];
        proof {
            assert(views[i as int] == q.properties@[i as int]@);
        }
        let nlen = match str_enc_len(prop.name.as_str()) {
            Some(n) => n,
            None => {
                proof {
                    assert(!crate::property::property_wf(views[i as int]));
                }
                return false;
            },
        };
        let vlen = match str_enc_len(prop.value.as_str()) {
            Some(n) => n,
            None => {
                proof {
                    assert(!crate::property::property_wf(views[i as int]));
                }
                return false;
            },
        };
        let slen: u128 = match &prop.signature {
            Some(sig) => match str_enc_len(sig.as_str()) {
                Some(n) => n,
                None => {
                    proof {
                        assert(!crate::property::property_wf(views[i as int]));
                    }
                    return false;
                },
            },
            None => 0,
        };
        let term: u128 = nlen + vlen + 1 + slen;
        proof {
            assert(crate::property::property_enc(views[i as int]).len() == term);
            crate::property::lemma_properties_body_enc_snoc(views, i as int);
        }
        let total2 = total + term;
        if total2 > 0x7FFFFFFF {
            proof {
                crate::property::lemma_properties_body_enc_split(views, i as int + 1);
            }
            return false;
        }
        total = total2;
        i = i + 1;
    }
    proof {
        assert(views.take(views.len() as int) =~= views);
    }
    let vl_cnt = varint_len_of(cnt as u32);
    1 + 16 + ulen + (vl_cnt as u128) + total <= 0x7FFFFFFF
}

/// Whether a known-packs announcement can be framed.
fn known_packs_fits(q: &ClientBoundConfigurationClientBoundKnownPacks) -> (r: bool)
    ensures
        r == (crate::configuration::known_packs_wf(*q)
            && 1 + crate::configuration::known_packs_body(*q).len() <= 0x7FFFFFFF),
{
    let cnt = q.known_packs.len();
    if cnt > 0x7FFFFFFF {
        return false;
    }
    let ghost packs = q.known_packs@;
    let mut total: u128 = 0;
    let mut i: usize = 0;
    while i < cnt
        invariant
            cnt == q.known_packs@.len(),
            i <= cnt,
            total <= 0x7FFFFFFF,
            total == crate::configuration::packs_body_enc(packs.take(i as int)).len(),
            forall|j: int| 0 <= j < i ==> crate::configuration::pack_wf(#[trigger] packs[j]),
        decreases cnt - i,
    {
        let pack = &q.known_packs[i];
        let nlen = match str_enc_len(pack.namespace.as_str()) {
            Some(n) => n,
            None => {
                return false;
            },
        };
        let ilen = match str_enc_len(pack.id.as_str()) {
            Some(n) => n,
            None => {
                return false;
            },
        };
        let vlen = match str_enc_len(pack.version.as_str()) {
            Some(n) => n,
            None => {
                return false;
            },
        };
        let term: u128 = nlen + ilen + vlen;
        proof {
            assert(crate::configuration::pack_enc(packs[i as int]).len() == term);
            crate::configuration::lemma_packs_body_enc_snoc(packs, i as int);
        }
        let total2 = total + term;
        if total2 > 0x7FFFFFFF {
            proof {
                crate::configuration::lemma_packs_body_enc_split(packs, i as int + 1);
            }
            return false;
        }
        total = total2;
        i = i + 1;
    }
    proof {
        assert(packs.take(packs.len() as int) =~= packs);
    }
    let vl_cnt = varint_len_of(cnt as u32);
    1 + (vl_cnt as u128) + total <= 0x7FFFFFFF
}

/// Whether a registry-data packet can be framed.
fn registry_data_fits(q: &ClientBoundConfigurationRegistryDataPacket) -> (r: bool)
    ensures
        r == (crate::configuration::registry_data_wf(*q)
            && 1 + crate::configuration::registry_data_body(*q).len() <= 0x7FFFFFFF),
{
    let idlen = match str_enc_len(q.identifier.as_str()) {
        Some(n) => n,
        None => {
            return false;
        },
    };
    let cnt = q.entries.len();
    if cnt > 0x7FFFFFFF {
        return false;
    }
    let ghost entries = q.entries@;
    let mut total: u128 = 0;
    let mut i: usize = 0;
    while i < cnt
        invariant
            cnt == q.entries@.len(),
            i <= cnt,
            total <= 0x7FFFFFFF,
            total == crate::configuration::entries_enc(entries.take(i as int)).len(),
            forall|j: int| 0 <= j < i ==> crate::configuration::entry_wf(#[trigger] entries[j]),
        decreases cnt - i,
    {
        let entry = &q.entries[i];
        let elen = match str_enc_len(entry.identifier.as_str()) {
            Some(n) => n,
            None => {
                return false;
            },
        };
        let dlen: u128 = match &entry.data {
            Some(d) => d.len() as u128,
            None => 0,
        };
        let term: u128 = elen + 1 + dlen;
        proof {
            assert(crate::configuration::entry_enc(entries[i as int]).len() == term);
            crate::configuration::lemma_entries_enc_snoc(entries, i as int);
        }
        let total2 = total + term;
        if total2 > 0x7FFFFFFF {
            proof {
                crate::configuration::lemma_entries_enc_split(entries, i as int + 1);
            }
            return false;
        }
        total = total2;
        i = i + 1;
    }
    proof {
        assert(entries.take(entries.len() as int) =~= entries);
    }
    let vl_cnt = varint_len_of(cnt as u32);
    1 + idlen + (vl_cnt as u128) + total <= 0x7FFFFFFF
}

/// Whether a Play login packet can be framed.
fn play_login_fits(q: &ClientBoundPlayLoginPacket) -> (r: bool)
    ensures
        r == (crate::play::play_login_wf(*q) && 1 + crate::play::play_login_body(*q).len()
            <= 0x7FFFFFFF),
{
    let dn = match str_enc_len(q.dimension_name.as_str()) {
        Some(n) => n,
        None => {
            return false;
        },
    };
    let head: u128 = 4 + 1 + 1 + varint_len_of(crate::bytebuf::u32_from_i32(q.max_players)) as u128
        + varint_len_of(crate::bytebuf::u32_from_i32(q.view_distance)) as u128 + varint_len_of(
        crate::bytebuf::u32_from_i32(q.simulation_distance),
    ) as u128 + 1 + 1 + 1;
    let mid: u128 = varint_len_of(crate::bytebuf::u32_from_i32(q.dimension_type)) as u128 + dn + 8
        + 1 + 1;
    let tail: u128 = 1 + 1 + 1 + varint_len_of(
        crate::bytebuf::u32_from_i32(q.portal_cooldown),
    ) as u128 + varint_len_of(crate::bytebuf::u32_from_i32(q.sea_level)) as u128 + 1;
    proof {
        assert(crate::play::play_login_head(*q).len() == head);
        assert(crate::play::play_login_mid(*q).len() == mid);
        assert(crate::play::play_login_tail(*q).len() == tail);
    }
    1 + head + mid + tail <= 0x7FFFFFFF
}

/// Whether a packet can be framed at all: its strings fit their 32-bit
/// signed length prefixes and the id plus payload fit the frame's length
/// prefix.  This is the executable form of [`packet_wf`], so the I/O shell
/// can test the precondition of [`framed_packet_bytes`] before calling it
/// and close the connection instead of sending a frame it cannot encode.
pub fn packet_fits(p: &ClientBoundPacket) -> (r: bool)
    ensures
        r == packet_wf(*p),
{
    proof {
        crate::wire::lemma_varint_enc_len(u32_of_i32(packet_id(*p)));
    }
    match p {
        ClientBoundPacket::StatusResponse(q) => status_response_fits(q),
        ClientBoundPacket::PingResponse(_) => true,
        ClientBoundPacket::LoginSuccess(q) => login_success_fits(q),
        ClientBoundPacket::KnownPacks(q) => known_packs_fits(q),
        ClientBoundPacket::RegistryData(q) => registry_data_fits(q),
        ClientBoundPacket::FinishConfiguration(_) => true,
        ClientBoundPacket::PlayLogin(q) => play_login_fits(q),
        ClientBoundPacket::SetChunkCenter(q) => {
            proof {
                crate::wire::lemma_varint_enc_len(u32_of_i32(q.chunk_x));
                crate::wire::lemma_varint_enc_len(u32_of_i32(q.chunk_z));
            }
            true
        },
        ClientBoundPacket::GameEvent(_) => true,
        ClientBoundPacket::KeepAlive(_) => true,
        ClientBoundPacket::ChunkData(_) => true,
        ClientBoundPacket::PlayerPosition(q) => {
            proof {
                crate::wire::lemma_varint_enc_len(u32_of_i32(q.teleport_id));
            }
            true
        },
    }
}

/// The content the engine sends but does not invent: the status summary,
/// the signed-property list for login success, the known packs, the
/// registry data, and the initial Play packets.  Produced by external data
/// collaborators; consumed verbatim.
pub struct ServerContent {
    pub status: ServerStatusResponse,
    pub login_properties: Vec<Property>,
    pub known_packs: ClientBoundConfigurationClientBoundKnownPacks,
    pub registries: Vec<ClientBoundConfigurationRegistryDataPacket>,
    pub play_login: ClientBoundPlayLoginPacket,
    pub chunk_center: ClientBoundPlaySetChunkCenterPacket,
    pub game_event: ClientBoundPlayGameEventPacket,
}

impl Default for ServerContent {
    /// The standing content of this server: the default status summary,
    /// the default property list and known packs, the five registries
    /// (biomes, wolf variants, painting variants, damage types, dimension
    /// types) with their entry identifiers and no tree payloads, and the
    /// default initial Play packets.
    fn default() -> (r: Self)
        ensures
            r.status.version.name@ == "1.21.4"@,
            r.status.version.protocol == 769,
            r.status.players.max == 100,
            r.status.players.online == 0,
            r.status.players.sample@.len() == 0,
            r.status.description.text@ == "HANNNNNNNNNN"@,
            r.status.enforces_secure_chat == false,
            r.login_properties@.len() == 1,
            r.login_properties@[0].name@ == "textures"@,
            r.login_properties@[0].value@
                == "ewogICJ0aW1lc3RhbXAiIDogMTc0MTA5NzkwNjQ2OCwKICAicHJvZmlsZUlkIiA6ICI3ZmQyZmQyY2I2ZDc0ZGRmYjY0MjZjMzI5Mjk2YWRmOCIsCiAgInByb2ZpbGVOYW1lIiA6ICJkYW5kYW4yNjExIiwKICAidGV4dHVyZXMiIDogewogICAgIlNLSU4iIDogewogICAgICAidXJsIiA6ICJodHRwOi8vdGV4dHVyZXMubWluZWNyYWZ0Lm5ldC90ZXh0dXJlLzc3YzQ2MzAyYWU2MmRhOTI0MDVmMjRmZGJjN2FmZGFhOTc3NzRiMGRkODg5MjBkODk3MjNiYTlmMDhiZWI5MDkiCiAgICB9CiAgfQp9"@,
            r.login_properties@[0].signature is None,
            r.known_packs.known_packs@.len() == 1,
            r.known_packs.known_packs@[0].namespace@ == "minecraft"@,
            r.known_packs.known_packs@[0].id@ == "core"@,
            r.known_packs.known_packs@[0].version@ == "1.21.4"@,
            r.registries@.len() == 5,
            r.registries@[0].identifier@ == "minecraft:worldgen/biome"@,
            r.registries@[0].entries@.len() == 2,
            r.registries@[1].identifier@ == "minecraft:wolf_variant"@,
            r.registries@[1].entries@.len() == 1,
            r.registries@[2].identifier@ == "minecraft:painting_variant"@,
            r.registries@[2].entries@.len() == 1,
            r.registries@[3].identifier@ == "minecraft:damage_type"@,
            r.registries@[3].entries@.len() == 49,
            r.registries@[4].identifier@ == "minecraft:dimension_type"@,
            r.registries@[4].entries@.len() == 1,
            r.play_login.entity_id == 1,
            r.play_login.hardcore == false,
            r.play_login.max_players == 100,
            r.play_login.view_distance == 10,
            r.play_login.simulation_distance == 10,
            r.play_login.reduced_debug_info == false,
            r.play_login.respawn_screen == true,
            r.play_login.limited_crafing == false,
            r.play_login.dimension_type == 0,
            r.play_login.dimension_name@ == "minecraft:overworld"@,
            r.play_login.hashed_seed == 0,
            r.play_login.game_mode == 0,
            r.play_login.previous_game_mode == 0,
            r.play_login.is_debug == false,
            r.play_login.is_flat == false,
            r.play_login.has_death_location == false,
            r.play_login.portal_cooldown == 10,
            r.play_login.sea_level == 63,
            r.play_login.enforces_secure_chat == false,
            r.chunk_center.chunk_x == 0,
            r.chunk_center.chunk_z == 0,
            r.game_event.event_id == 13,
            r.game_event.value_bits == 0,
    {
        let status_packet = ClientBoundStatusResponsePacket::default();
        let mut registries: Vec<ClientBoundConfigurationRegistryDataPacket> = Vec::new();

        let mut biomes: Vec<RegistryEntry> = Vec::new();
        biomes.push(
            RegistryEntry {
                identifier: "minecraft:old_growth_pine_taiga".to_owned(),
                data: None,
            },
        );
        biomes.push(RegistryEntry { identifier: "minecraft:plains".to_owned(), data: None });
        registries.push(
            ClientBoundConfigurationRegistryDataPacket {
                identifier: "minecraft:worldgen/biome".to_owned(),
                entries: biomes,
            },
        );

        let mut wolves: Vec<RegistryEntry> = Vec::new();
        wolves.push(RegistryEntry { identifier: "minecraft:black".to_owned(), data: None });
        registries.push(
            ClientBoundConfigurationRegistryDataPacket {
                identifier: "minecraft:wolf_variant".to_owned(),
                entries: wolves,
            },
        );

        let mut paintings: Vec<RegistryEntry> = Vec::new();
        paintings.push(RegistryEntry { identifier: "minecraft:backyard".to_owned(), data: None });
        registries.push(
            ClientBoundConfigurationRegistryDataPacket {
                identifier: "minecraft:painting_variant".to_owned(),
                entries: paintings,
            },
        );

        let damage_names: Vec<&str> = damage_type_names();
        let mut damage: Vec<RegistryEntry> = Vec::new();
        let mut i: usize = 0;
        while i < damage_names.len()
            invariant
                i <= damage_names@.len(),
                damage@.len() == i,
            decreases damage_names@.len() - i,
        {
            damage.push(damage_type_entry(damage_names[i]));
            i = i + 1;
        }
        registries.push(
            ClientBoundConfigurationRegistryDataPacket {
                identifier: "minecraft:damage_type".to_owned(),
                entries: damage,
            },
        );

        let mut dimensions: Vec<RegistryEntry> = Vec::new();
        dimensions.push(RegistryEntry { identifier: "minecraft:overworld".to_owned(), data: None });
        registries.push(
            ClientBoundConfigurationRegistryDataPacket {
                identifier: "minecraft:dimension_type".to_owned(),
                entries: dimensions,
            },
        );

        ServerContent {
            status: status_packet.response,
            login_properties: crate::login::textures_property_list(),
            known_packs: ClientBoundConfigurationClientBoundKnownPacks::default(),
            registries,
            play_login: ClientBoundPlayLoginPacket::default(),
            chunk_center: ClientBoundPlaySetChunkCenterPacket::default(),
            game_event: ClientBoundPlayGameEventPacket { event_id: 13, value_bits: 0 },
        }
    }
}

/// One damage-type registry entry under the `minecraft:` namespace, with
/// no tree payload.
fn damage_type_entry(name: &str) -> (r: RegistryEntry)
    ensures
        r.identifier@ == "minecraft:"@ + name@,
        r.data is None,
{
    RegistryEntry { identifier: "minecraft:".to_owned().concat(name), data: None }
}

/// The damage types this server declares.
fn damage_type_names() -> (r: Vec<&'static str>)
    ensures
        r@.len() == 49,
{
    let names: Vec<&'static str> = vec![
        "arrow",
        "bad_respawn_point",
        "cactus",
        "campfire",
        "cramming",
        "dragon_breath",
        "drown",
        "dry_out",
        "ender_pearl",
        "explosion",
        "fall",
        "falling_anvil",
        "falling_block",
        "falling_stalactite",
        "fireball",
        "fireworks",
        "fly_into_wall",
        "freeze",
        "generic",
        "generic_kill",
        "hot_floor",
        "in_fire",
        "in_wall",
        "indirect_magic",
        "lava",
        "lightning_bolt",
        "mace_smash",
        "magic",
        "mob_attack",
        "mob_attack_no_aggro",
        "mob_projectile",
        "on_fire",
        "out_of_world",
        "outside_border",
        "player_attack",
        "player_explosion",
        "sonic_boom",
        "spit",
        "stalagmite",
        "starve",
        "sting",
        "sweet_berry_bush",
        "thorns",
        "thrown",
        "trident",
        "unattributed_fireball",
        "wind_charge",
        "wither",
        "wither_skull",
    ];
    names
}

/// What the engine decides for one inbound packet: the phase the session
/// moves to, the identity to record (at most once), and the packets to
/// send, in order.  The phase is applied strictly before the packets are
/// sent ([`Session::apply`] returns them only after updating the phase).
pub struct Reaction {
    pub next_phase: PacketStatus,
    pub set_identity: Option<ClientIdentity>,
    pub outbound: Vec<ClientBoundPacket>,
}

/// Whether a decoded packet belongs to the given phase.
pub open spec fn packet_in_phase(phase: PacketStatus, packet: ServerBoundPacket) -> bool {
    match packet {
        ServerBoundPacket::Handshake(_) => phase is Handshake,
        ServerBoundPacket::Status(_) => phase is Status,
        ServerBoundPacket::Login(_) => phase is Login,
        ServerBoundPacket::Configuration(_) => phase is Configuration,
    }
}

/// The state machine's decision, as a function of the decoded packet and
/// the supplied content.
///
/// - Handshake: the declared next state picks Status or Login; anything
///   else is an illegal transition.  No response.
/// - Status: a request is answered with the status summary; a ping is
///   answered with a pong echoing the timestamp.  The phase stays Status.
/// - Login: login start records the identity and answers login success
///   echoing the identity with the supplied property list; login
///   acknowledged moves to Configuration and pushes the known packs, every
///   registry, and the finish marker, in that order.
/// - Configuration: the acknowledgement moves to Play and pushes the Play
///   login metadata, the chunk center, and the game event, in that order.
pub open spec fn spec_react(packet: ServerBoundPacket, content: ServerContent) -> Result<
    (PacketStatus, Option<ClientIdentity>, Seq<ClientBoundPacket>),
    WireError,
> {
    match packet {
        ServerBoundPacket::Handshake(h) => {
            if h.next_state == 1 {
                Ok((PacketStatus::Status, None, Seq::empty()))
            } else if h.next_state == 2 {
                Ok((PacketStatus::Login, None, Seq::empty()))
            } else {
                Err(WireError::IllegalPhaseTransition)
            }
        },
        ServerBoundPacket::Status(sp) => match sp {
            ServerBoundStatusPacket::Request(_) => Ok(
                (
                    PacketStatus::Status,
                    None,
                    seq![
                        ClientBoundPacket::StatusResponse(
                            ClientBoundStatusResponsePacket { response: content.status },
                        ),
                    ],
                ),
            ),
            ServerBoundStatusPacket::Ping(q) => Ok(
                (
                    PacketStatus::Status,
                    None,
                    seq![
                        ClientBoundPacket::PingResponse(
                            ClientBoundStatusPingResponsePacket { timestamp: q.timestamp },
                        ),
                    ],
                ),
            ),
        },
        ServerBoundPacket::Login(lp) => match lp {
            ServerBoundLoginPacket::Start(q) => Ok(
                (
                    PacketStatus::Login,
                    Some(ClientIdentity { uuid: q.uuid, username: q.name }),
                    seq![
                        ClientBoundPacket::LoginSuccess(
                            ClientBoundLoginLoginSuccessPacket {
                                uuid: q.uuid,
                                username: q.name,
                                properties: content.login_properties,
                            },
                        ),
                    ],
                ),
            ),
            ServerBoundLoginPacket::Acknowledged(_) => Ok(
                (
                    PacketStatus::Configuration,
                    None,
                    seq![ClientBoundPacket::KnownPacks(content.known_packs)]
                        + content.registries@.map_values(
                        |p: ClientBoundConfigurationRegistryDataPacket|
                            ClientBoundPacket::RegistryData(p),
                    ) + seq![
                        ClientBoundPacket::FinishConfiguration(
                            ClientBoundConfigurationFinishConfigurationPacket {  },
                        ),
                    ],
                ),
            ),
        },
        ServerBoundPacket::Configuration(_) => Ok(
            (
                PacketStatus::Play,
                None,
                seq![
                    ClientBoundPacket::PlayLogin(content.play_login),
                    ClientBoundPacket::SetChunkCenter(content.chunk_center),
                    ClientBoundPacket::GameEvent(content.game_event),
                ],
            ),
        ),
    }
}

/// Executes the state machine's decision for one decoded packet.  The
/// decision is exactly [`spec_react`]; in particular a handshake declaring
/// next-state 1 moves the session to Status and not Login, and one
/// declaring 2 moves it to Login.
pub fn react(phase: PacketStatus, packet: ServerBoundPacket, content: ServerContent) -> (r: Result<
    Reaction,
    WireError,
>)
    requires
        packet_in_phase(phase, packet),
    ensures
        match spec_react(packet, content) {
            Ok((ph, idn, out)) => r matches Ok(rx) && rx.next_phase == ph && rx.set_identity == idn
                && rx.outbound@ == out,
            Err(e) => r == Err::<Reaction, _>(e),
        },
{
    match packet {
        ServerBoundPacket::Handshake(h) => {
            if h.next_state == 1 {
                Ok(
                    Reaction {
                        next_phase: PacketStatus::Status,
                        set_identity: None,
                        outbound: Vec::new(),
                    },
                )
            } else if h.next_state == 2 {
                Ok(
                    Reaction {
                        next_phase: PacketStatus::Login,
                        set_identity: None,
                        outbound: Vec::new(),
                    },
                )
            } else {
                Err(WireError::IllegalPhaseTransition)
            }
        },
        ServerBoundPacket::Status(sp) => match sp {
            ServerBoundStatusPacket::Request(_) => {
                let mut outbound: Vec<ClientBoundPacket> = Vec::new();
                outbound.push(
                    ClientBoundPacket::StatusResponse(
                        ClientBoundStatusResponsePacket { response: content.status },
                    ),
                );
                proof {
                    assert(outbound@ =~= seq![
                        ClientBoundPacket::StatusResponse(
                            ClientBoundStatusResponsePacket { response: content.status },
                        ),
                    ]);
                }
                Ok(
                    Reaction {
                        next_phase: PacketStatus::Status,
                        set_identity: None,
                        outbound,
                    },
                )
            },
            ServerBoundStatusPacket::Ping(q) => {
                let mut outbound: Vec<ClientBoundPacket> = Vec::new();
                outbound.push(
                    ClientBoundPacket::PingResponse(
                        ClientBoundStatusPingResponsePacket { timestamp: q.timestamp },
                    ),
                );
                proof {
                    assert(outbound@ =~= seq![
                        ClientBoundPacket::PingResponse(
                            ClientBoundStatusPingResponsePacket { timestamp: q.timestamp },
                        ),
                    ]);
                }
                Ok(
                    Reaction {
                        next_phase: PacketStatus::Status,
                        set_identity: None,
                        outbound,
                    },
                )
            },
        },
        ServerBoundPacket::Login(lp) => match lp {
            ServerBoundLoginPacket::Start(q) => {
                let username = clone_string(&q.name);
                let mut outbound: Vec<ClientBoundPacket> = Vec::new();
                outbound.push(
                    ClientBoundPacket::LoginSuccess(
                        ClientBoundLoginLoginSuccessPacket {
                            uuid: q.uuid,
                            username: q.name,
                            properties: content.login_properties,
                        },
                    ),
                );
                proof {
                    assert(outbound@ =~= seq![
                        ClientBoundPacket::LoginSuccess(
                            ClientBoundLoginLoginSuccessPacket {
                                uuid: q.uuid,
                                username: q.name,
                                properties: content.login_properties,
                            },
                        ),
                    ]);
                }
                Ok(
                    Reaction {
                        next_phase: PacketStatus::Login,
                        set_identity: Some(ClientIdentity { uuid: q.uuid, username }),
                        outbound,
                    },
                )
            },
            ServerBoundLoginPacket::Acknowledged(_) => {
                let ghost regs0 = content.registries@;
                let mut outbound: Vec<ClientBoundPacket> = Vec::new();
                outbound.push(ClientBoundPacket::KnownPacks(content.known_packs));
                let mut regs = content.registries;
                let ghost fmap = |p: ClientBoundConfigurationRegistryDataPacket|
                    ClientBoundPacket::RegistryData(p);
                proof {
                    assert(outbound@ =~= seq![
                        ClientBoundPacket::KnownPacks(content.known_packs),
                    ] + regs0.take(0int).map_values(fmap));
                }
                let regs_total = regs.len();
                proof {
                    assert(regs0.len() == regs_total);
                }
                let mut i: usize = 0;
                while regs.len() > 0
                    invariant
                        regs0.len() <= usize::MAX,
                        i + regs@.len() == regs0.len(),
                        regs@ == regs0.skip(i as int),
                        outbound@ == seq![
                            ClientBoundPacket::KnownPacks(content.known_packs),
                        ] + regs0.take(i as int).map_values(fmap),
                    decreases regs@.len(),
                {
                    let p = regs.remove(0);
                    outbound.push(ClientBoundPacket::RegistryData(p));
                    i = i + 1;
                    proof {
                        assert(regs@ =~= regs0.skip(i as int));
                        assert(regs0.take(i as int).map_values(fmap) =~= regs0.take(
                            i as int - 1,
                        ).map_values(fmap).push(fmap(regs0[i as int - 1])));
                        assert(outbound@ =~= seq![
                            ClientBoundPacket::KnownPacks(content.known_packs),
                        ] + regs0.take(i as int).map_values(fmap));
                    }
                }
                outbound.push(
                    ClientBoundPacket::FinishConfiguration(
                        ClientBoundConfigurationFinishConfigurationPacket {  },
                    ),
                );
                proof {
                    assert(regs0.take(regs0.len() as int) =~= regs0);
                    assert(regs0.map_values(fmap) =~= content.registries@.map_values(
                        |p: ClientBoundConfigurationRegistryDataPacket|
                            ClientBoundPacket::RegistryData(p),
                    ));
                    assert(outbound@ =~= seq![ClientBoundPacket::KnownPacks(content.known_packs)]
                        + content.registries@.map_values(
                        |p: ClientBoundConfigurationRegistryDataPacket|
                            ClientBoundPacket::RegistryData(p),
                    ) + seq![
                        ClientBoundPacket::FinishConfiguration(
                            ClientBoundConfigurationFinishConfigurationPacket {  },
                        ),
                    ]);
                }
                Ok(
                    Reaction {
                        next_phase: PacketStatus::Configuration,
                        set_identity: None,
                        outbound,
                    },
                )
            },
        },
        ServerBoundPacket::Configuration(_) => {
            let mut outbound: Vec<ClientBoundPacket> = Vec::new();
            outbound.push(ClientBoundPacket::PlayLogin(content.play_login));
            outbound.push(ClientBoundPacket::SetChunkCenter(content.chunk_center));
            outbound.push(ClientBoundPacket::GameEvent(content.game_event));
            proof {
                assert(outbound@ =~= seq![
                    ClientBoundPacket::PlayLogin(content.play_login),
                    ClientBoundPacket::SetChunkCenter(content.chunk_center),
                    ClientBoundPacket::GameEvent(content.game_event),
                ]);
            }
            Ok(
                Reaction {
                    next_phase: PacketStatus::Play,
                    set_identity: None,
                    outbound,
                },
            )
        },
    }
}

/// Clones a string; the vstd specification of `String::clone` gives back
/// the very same value.
fn clone_string(s: &String) -> (r: String)
    ensures
        r == *s,
{
    s.clone()
}

/// Handles one complete frame (packet id plus payload) against the current
/// phase.
///
/// The id is read as a VarInt.  In Play, a keep-alive request (id 0x27) is
/// answered with a keep-alive echoing the same 8-byte payload, and every
/// other id is ignored without error — never a reason to close the
/// connection.  In every other phase the id is dispatched through the
/// registry and the state machine decides; an unknown id there is a
/// protocol violation reported as `UnknownPacketId`.
pub fn read_complete(phase: PacketStatus, buf: &mut ByteBuf, content: ServerContent) -> (r: Result<
    Reaction,
    WireError,
>)
    requires
        old(buf).wf(),
    ensures
        final(buf).wf(),
        final(buf).data@ == old(buf).data@,
        match parse_varint(old(buf).rem()) {
            Err(e) => r == Err::<Reaction, _>(e),
            Ok((id, n)) => {
                if phase is Play {
                    if id == 0x27 {
                        match parse_i64(old(buf).rem().skip(n)) {
                            Ok((t, m)) => r matches Ok(rx) && rx.next_phase is Play
                                && rx.set_identity is None && rx.outbound@ == seq![
                                ClientBoundPacket::KeepAlive(
                                    ClientBoundPlayKeepAlivePacket { id: t },
                                ),
                            ],
                            Err(e) => r == Err::<Reaction, _>(e),
                        }
                    } else {
                        r matches Ok(rx) && rx.next_phase is Play && rx.set_identity is None
                            && rx.outbound@.len() == 0
                    }
                } else {
                    match phase {
                        PacketStatus::Handshake => {
                            if id == 0x00 {
                                match crate::handshake::parse_handshake(old(buf).rem().skip(n)) {
                                    Ok(((pv, addr, port, ns), m)) => {
                                        if ns == 1 {
                                            r matches Ok(rx) && rx.next_phase is Status
                                                && rx.set_identity is None && rx.outbound@.len()
                                                == 0
                                        } else if ns == 2 {
                                            r matches Ok(rx) && rx.next_phase is Login
                                                && rx.set_identity is None && rx.outbound@.len()
                                                == 0
                                        } else {
                                            r == Err::<Reaction, _>(
                                                WireError::IllegalPhaseTransition,
                                            )
                                        }
                                    },
                                    Err(e) => r == Err::<Reaction, _>(e),
                                }
                            } else {
                                r == Err::<Reaction, _>(WireError::UnknownPacketId(0, id))
                            }
                        },
                        PacketStatus::Status => {
                            if id == 0x00 {
                                r matches Ok(rx) && rx.next_phase is Status && rx.set_identity
                                    is None && rx.outbound@ == seq![
                                    ClientBoundPacket::StatusResponse(
                                        ClientBoundStatusResponsePacket {
                                            response: content.status,
                                        },
                                    ),
                                ]
                            } else if id == 0x01 {
                                match parse_i64(old(buf).rem().skip(n)) {
                                    Ok((t, m)) => r matches Ok(rx) && rx.next_phase is Status
                                        && rx.set_identity is None && rx.outbound@ == seq![
                                        ClientBoundPacket::PingResponse(
                                            ClientBoundStatusPingResponsePacket { timestamp: t },
                                        ),
                                    ],
                                    Err(e) => r == Err::<Reaction, _>(e),
                                }
                            } else {
                                r == Err::<Reaction, _>(WireError::UnknownPacketId(1, id))
                            }
                        },
                        PacketStatus::Login => {
                            if id == 0x00 {
                                match crate::login::parse_login_start(old(buf).rem().skip(n)) {
                                    Ok(((name, uuid), m)) => r matches Ok(rx) && rx.next_phase
                                        is Login && (rx.set_identity matches Some(idn)
                                        && idn.uuid == uuid && idn.username@ == name)
                                        && rx.outbound@.len() == 1 && (rx.outbound@[0] matches
                                        ClientBoundPacket::LoginSuccess(ls) && ls.uuid == uuid
                                        && ls.username@ == name && ls.properties
                                        == content.login_properties),
                                    Err(e) => r == Err::<Reaction, _>(e),
                                }
                            } else if id == 0x03 {
                                r matches Ok(rx) && rx.next_phase is Configuration
                                    && rx.set_identity is None && rx.outbound@ == seq![
                                    ClientBoundPacket::KnownPacks(content.known_packs),
                                ] + content.registries@.map_values(
                                    |p: ClientBoundConfigurationRegistryDataPacket|
                                        ClientBoundPacket::RegistryData(p),
                                ) + seq![
                                    ClientBoundPacket::FinishConfiguration(
                                        ClientBoundConfigurationFinishConfigurationPacket {  },
                                    ),
                                ]
                            } else {
                                r == Err::<Reaction, _>(WireError::UnknownPacketId(2, id))
                            }
                        },
                        PacketStatus::Configuration => {
                            if id == 0x03 {
                                r matches Ok(rx) && rx.next_phase is Play && rx.set_identity
                                    is None && rx.outbound@ == seq![
                                    ClientBoundPacket::PlayLogin(content.play_login),
                                    ClientBoundPacket::SetChunkCenter(content.chunk_center),
                                    ClientBoundPacket::GameEvent(content.game_event),
                                ]
                            } else {
                                r == Err::<Reaction, _>(WireError::UnknownPacketId(3, id))
                            }
                        },
                        PacketStatus::Play => true,
                    }
                }
            },
        },
{
    let ghost s0 = buf.rem();
    let id = match buf.read_varint() {
        Ok(v) => v,
        Err(e) => {
            return Err(e);
        },
    };
    let ghost n = buf.read_offset - old(buf).read_offset;
    proof {
        crate::wire::lemma_parse_varint_consumed(s0);
        assert(buf.rem() =~= s0.skip(n));
    }
    match phase {
        PacketStatus::Play => {
            if id == 0x27 {
                let t = match buf.read_i64() {
                    Ok(v) => v,
                    Err(e) => {
                        return Err(e);
                    },
                };
                let mut outbound: Vec<ClientBoundPacket> = Vec::new();
                outbound.push(
                    ClientBoundPacket::KeepAlive(ClientBoundPlayKeepAlivePacket { id: t }),
                );
                proof {
                    assert(outbound@ =~= seq![
                        ClientBoundPacket::KeepAlive(ClientBoundPlayKeepAlivePacket { id: t }),
                    ]);
                }
                Ok(
                    Reaction {
                        next_phase: PacketStatus::Play,
                        set_identity: None,
                        outbound,
                    },
                )
            } else {
                Ok(
                    Reaction {
                        next_phase: PacketStatus::Play,
                        set_identity: None,
                        outbound: Vec::new(),
                    },
                )
            }
        },
        _ => {
            let packet = match PacketManager::decode(phase, id, buf) {
                Ok(p) => p,
                Err(e) => {
                    return Err(e);
                },
            };
            react(phase, packet, content)
        },
    }
}

/// One connection's protocol state: the current phase and, once Login
/// succeeds, the identity.  Owned exclusively by the connection's task;
/// mutated only through [`Session::apply`].
pub struct Session {
    pub state: PacketStatus,
    pub identity: Option<ClientIdentity>,
}

impl Session {
    /// A fresh connection starts in Handshake with no identity.
    pub fn new() -> (r: Session)
        ensures
            r.state is Handshake,
            r.identity is None,
    {
        Session { state: PacketStatus::Handshake, identity: None }
    }

    /// Applies a reaction: the phase moves to the reaction's next phase and
    /// the identity is recorded if none was set yet — it is set at most
    /// once and never changed.  The packets to send come back to the
    /// caller, so the phase is updated strictly before anything is sent.
    pub fn apply(&mut self, r: Reaction) -> (out: Vec<ClientBoundPacket>)
        ensures
            final(self).state == r.next_phase,
            final(self).identity == if old(self).identity is None {
                r.set_identity
            } else {
                old(self).identity
            },
            out == r.outbound,
    {
        self.state = r.next_phase;
        if self.identity.is_none() {
            self.identity = r.set_identity;
        }
        r.outbound
    }
}

} // verus!
