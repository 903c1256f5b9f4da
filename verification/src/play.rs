//! The Play phase: the clientbound packets the engine pushes when a
//! connection enters Play.  Floating-point packet fields are carried as
//! their IEEE-754 bit patterns, which is exactly what the wire holds.

use crate::bytebuf::ByteBuf;
use crate::wire::{
    be16, be32, be64, bool_byte, string_enc, u16_of_i16, u32_of_i32, u64_of_i64, u8_of_i8,
    varint_enc, WireError,
};
use vstd::prelude::*;
use vstd::utf8::encode_utf8;

verus! {

/// The Play phase has no serverbound packets in the registry; keep-alives
/// are answered from the raw frame and other ids are ignored, so no value
/// of this type ever exists.
#[derive(Clone, Copy, Debug, PartialEq, Eq, Structural)]
pub enum EServerPlayPacket {
    Never,
}

pub struct ServerConfigurationPacketFactory {}

impl ServerConfigurationPacketFactory {
    pub fn from_id(&self, id: i32) -> (r: Option<EServerPlayPacket>)
        ensures
            r is None,
    {
        None
    }

    /// No id is legal: every packet is reported unknown.
    pub fn decode(&self, id: i32, buf: &mut ByteBuf) -> (r: Result<EServerPlayPacket, WireError>)
        ensures
            *final(buf) == *old(buf),
            r == Err::<EServerPlayPacket, _>(WireError::UnknownPacketId(4, id)),
    {
        Err(WireError::UnknownPacketId(4, id))
    }
}

/// The Play login packet: the world and session metadata pushed right
/// after the connection enters Play.
pub struct ClientBoundPlayLoginPacket {
    pub entity_id: i32,
    pub hardcore: bool,
    pub dimension_names: Vec<String>,
    pub max_players: i32,
    pub view_distance: i32,
    pub simulation_distance: i32,
    pub reduced_debug_info: bool,
    pub respawn_screen: bool,
    pub limited_crafing: bool,
    pub dimension_type: i32,
    pub dimension_name: String,
    pub hashed_seed: i64,
    pub game_mode: u8,
    pub previous_game_mode: i8,
    pub is_debug: bool,
    pub is_flat: bool,
    pub has_death_location: bool,
    pub death_dimension_name: Option<bool>,
    pub death_location: Option<bool>,
    pub portal_cooldown: i32,
    pub sea_level: i32,
    pub enforces_secure_chat: bool,
}

impl Default for ClientBoundPlayLoginPacket {
    fn default() -> (r: Self)
        ensures
            r.entity_id == 1,
            r.hardcore == false,
            r.dimension_names@.len() == 1,
            r.dimension_names@[0]@ == "minecraft:overworld"@,
            r.max_players == 100,
            r.view_distance == 10,
            r.simulation_distance == 10,
            r.reduced_debug_info == false,
            r.respawn_screen == true,
            r.limited_crafing == false,
            r.dimension_type == 0,
            r.dimension_name@ == "minecraft:overworld"@,
            r.hashed_seed == 0,
            r.game_mode == 0,
            r.previous_game_mode == 0,
            r.is_debug == false,
            r.is_flat == false,
            r.has_death_location == false,
            r.death_dimension_name is None,
            r.death_location is None,
            r.portal_cooldown == 10,
            r.sea_level == 63,
            r.enforces_secure_chat == false,
    {
        let mut names: Vec<String> = Vec::new();
        names.push("minecraft:overworld".to_owned());
        ClientBoundPlayLoginPacket {
            entity_id: 1,
            hardcore: false,
            dimension_names: names,
            max_players: 100,
            view_distance: 10,
            simulation_distance: 10,
            reduced_debug_info: false,
            respawn_screen: true,
            limited_crafing: false,
            dimension_type: 0,
            dimension_name: "minecraft:overworld".to_owned(),
            hashed_seed: 0,
            game_mode: 0,
            previous_game_mode: 0,
            is_debug: false,
            is_flat: false,
            has_death_location: false,
            death_dimension_name: None,
            death_location: None,
            portal_cooldown: 10,
            sea_level: 63,
            enforces_secure_chat: false,
        }
    }
}

pub open spec fn play_login_wf(p: ClientBoundPlayLoginPacket) -> bool {
    encode_utf8(p.dimension_name@).len() <= 0x7FFFFFFF
}

/// The leading fields of the Play login body, through the crafting flag.
/// The dimension-name list is written with a zero count, whatever the
/// field holds: that is the wire shape this engine commits to.
pub open spec fn play_login_head(p: ClientBoundPlayLoginPacket) -> Seq<u8> {
    be32(u32_of_i32(p.entity_id)) + seq![bool_byte(p.hardcore)] + varint_enc(0) + varint_enc(
        u32_of_i32(p.max_players),
    ) + varint_enc(u32_of_i32(p.view_distance)) + varint_enc(u32_of_i32(p.simulation_distance))
        + seq![bool_byte(p.reduced_debug_info)] + seq![bool_byte(p.respawn_screen)] + seq![
        bool_byte(p.limited_crafing),
    ]
}

/// The middle fields: dimension, seed, and the game-mode bytes.  The game
/// mode byte is written as zero, whatever the field holds.
pub open spec fn play_login_mid(p: ClientBoundPlayLoginPacket) -> Seq<u8> {
    varint_enc(u32_of_i32(p.dimension_type)) + string_enc(p.dimension_name@) + be64(
        u64_of_i64(p.hashed_seed),
    ) + seq![0u8] + seq![u8_of_i8(p.previous_game_mode)]
}

/// The trailing fields: the world flags and limits.  The death-location
/// flag byte is written as zero, whatever the fields hold.
pub open spec fn play_login_tail(p: ClientBoundPlayLoginPacket) -> Seq<u8> {
    seq![bool_byte(p.is_debug)] + seq![bool_byte(p.is_flat)] + seq![0u8] + varint_enc(
        u32_of_i32(p.portal_cooldown),
    ) + varint_enc(u32_of_i32(p.sea_level)) + seq![bool_byte(p.enforces_secure_chat)]
}

/// The Play login body: the world and session metadata in wire order.
pub open spec fn play_login_body(p: ClientBoundPlayLoginPacket) -> Seq<u8> {
    play_login_head(p) + play_login_mid(p) + play_login_tail(p)
}

impl ClientBoundPlayLoginPacket {
    pub fn id(&self) -> (r: i32)
        ensures
            r == 0x2C,
    {
        0x2C
    }

    #[verifier::rlimit(100)]
    #[verifier::spinoff_prover]
    pub fn encode(&self, buf: &mut ByteBuf)
        requires
            play_login_wf(*self),
        ensures
            final(buf).data@ == old(buf).data@ + play_login_body(*self),
            final(buf).read_offset == old(buf).read_offset,
    {
        buf.write_i32(self.entity_id);
        buf.write_bool(self.hardcore);
        buf.write_varint(0);
        buf.write_varint(self.max_players);
        buf.write_varint(self.view_distance);
        buf.write_varint(self.simulation_distance);
        buf.write_bool(self.reduced_debug_info);
        buf.write_bool(self.respawn_screen);
        buf.write_bool(self.limited_crafing);
        proof {
            assert(buf.data@ =~= old(buf).data@ + play_login_head(*self));
        }
        let ghost after_head = buf.data@;
        buf.write_varint(self.dimension_type);
        buf.write_string(self.dimension_name.as_str());
        buf.write_i64(self.hashed_seed);
        buf.write_i8(0);
        buf.write_i8(self.previous_game_mode);
        proof {
            assert(buf.data@ =~= after_head + play_login_mid(*self));
        }
        let ghost after_mid = buf.data@;
        buf.write_bool(self.is_debug);
        buf.write_bool(self.is_flat);
        buf.write_i8(0);
        buf.write_varint(self.portal_cooldown);
        buf.write_varint(self.sea_level);
        buf.write_bool(self.enforces_secure_chat);
        proof {
            assert(buf.data@ =~= after_mid + play_login_tail(*self));
            assert(buf.data@ =~= old(buf).data@ + play_login_body(*self));
        }
    }
}

/// Set chunk center: the chunk coordinates the client should center its
/// loaded area on.
pub struct ClientBoundPlaySetChunkCenterPacket {
    pub chunk_x: i32,
    pub chunk_z: i32,
}

impl Default for ClientBoundPlaySetChunkCenterPacket {
    fn default() -> (r: Self)
        ensures
            r.chunk_x == 0,
            r.chunk_z == 0,
    {
        Self { chunk_x: 0, chunk_z: 0 }
    }
}

pub open spec fn set_chunk_center_body(p: ClientBoundPlaySetChunkCenterPacket) -> Seq<u8> {
    varint_enc(u32_of_i32(p.chunk_x)) + varint_enc(u32_of_i32(p.chunk_z))
}

impl ClientBoundPlaySetChunkCenterPacket {
    pub fn id(&self) -> (r: i32)
        ensures
            r == 0x58,
    {
        0x58
    }

    pub fn encode(&self, buf: &mut ByteBuf)
        ensures
            final(buf).data@ == old(buf).data@ + set_chunk_center_body(*self),
            final(buf).read_offset == old(buf).read_offset,
    {
        buf.write_varint(self.chunk_x);
        buf.write_varint(self.chunk_z);
        proof {
            assert(buf.data@ =~= old(buf).data@ + set_chunk_center_body(*self));
        }
    }
}

/// Chunk payload data: a pre-serialized heightmap tree and the packed
/// section bytes.
pub struct ChunkData {
    pub heightmaps: Vec<u8>,
    pub data: Vec<i8>,
}

/// The light masks of a chunk.
pub struct LightData {
    pub sky_light_mask: Vec<i8>,
    pub block_light_mask: Vec<i8>,
    pub empty_sky_light_mask: Vec<i8>,
    pub empty_block_light_mask: Vec<i8>,
}

/// Relies on `bit_set::BitSet::new` and `BitSet::iter`: a freshly created
/// set is empty, so iterating its set bits yields no positions.
#[verifier::external_body]
fn empty_bitset_blocks() -> (r: Vec<i64>)
    ensures
        r@.len() == 0,
{
    let bs = bit_set::BitSet::new();
    let mut longs: Vec<i64> = Vec::new();
    for x in bs.iter() {
        longs.push(x as i64);
    }
    longs
}

/// Writes an empty bit set: a zero length and no blocks.
fn encode_empty_bitset(buf: &mut ByteBuf)
    ensures
        final(buf).data@ == old(buf).data@ + varint_enc(0),
        final(buf).read_offset == old(buf).read_offset,
{
    let longs = empty_bitset_blocks();
    buf.write_varint(longs.len() as i32);
    let mut i: usize = 0;
    while i < longs.len()
        invariant
            longs@.len() == 0,
            i == 0,
            buf.data@ == old(buf).data@ + varint_enc(0),
            buf.read_offset == old(buf).read_offset,
        decreases longs@.len() - i,
    {
        buf.write_i64(longs[i]);
        i = i + 1;
    }
}

/// Chunk data: the chunk coordinates, an empty heightmap tree, no section
/// data, no block entities, and empty light masks.
pub struct ClientBoundPlayChunkDataPacket {
    pub chunk_x: i32,
    pub chunk_z: i32,
}

pub open spec fn chunk_data_body(p: ClientBoundPlayChunkDataPacket) -> Seq<u8> {
    be32(u32_of_i32(p.chunk_x)) + be32(u32_of_i32(p.chunk_z)) + seq![0u8] + varint_enc(0)
        + varint_enc(0) + varint_enc(0) + varint_enc(0) + varint_enc(0) + varint_enc(0)
        + varint_enc(0) + varint_enc(0)
}

impl ClientBoundPlayChunkDataPacket {
    pub fn id(&self) -> (r: i32)
        ensures
            r == 0x28,
    {
        0x28
    }

    pub fn encode(&self, buf: &mut ByteBuf)
        ensures
            final(buf).data@ == old(buf).data@ + chunk_data_body(*self),
            final(buf).read_offset == old(buf).read_offset,
    {
        buf.write_i32(self.chunk_x);
        buf.write_i32(self.chunk_z);
        buf.write_u8(0);
        buf.write_varint(0);
        buf.write_varint(0);
        encode_empty_bitset(buf);
        encode_empty_bitset(buf);
        encode_empty_bitset(buf);
        encode_empty_bitset(buf);
        buf.write_varint(0);
        buf.write_varint(0);
        proof {
            assert(buf.data@ =~= old(buf).data@ + chunk_data_body(*self));
        }
    }
}

/// Game event: an event id byte and a 32-bit value, carried as its
/// IEEE-754 bit pattern.
pub struct ClientBoundPlayGameEventPacket {
    pub event_id: i8,
    pub value_bits: u32,
}

pub open spec fn game_event_body(p: ClientBoundPlayGameEventPacket) -> Seq<u8> {
    seq![u8_of_i8(p.event_id)] + be32(p.value_bits)
}

impl ClientBoundPlayGameEventPacket {
    pub fn id(&self) -> (r: i32)
        ensures
            r == 0x23,
    {
        0x23
    }

    pub fn encode(&self, buf: &mut ByteBuf)
        ensures
            final(buf).data@ == old(buf).data@ + game_event_body(*self),
            final(buf).read_offset == old(buf).read_offset,
    {
        buf.write_i8(self.event_id);
        buf.write_u32(self.value_bits);
        proof {
            assert(buf.data@ =~= old(buf).data@ + game_event_body(*self));
        }
    }
}

/// Player position: a teleport id, coordinates and velocities as 64-bit
/// bit patterns, view angles as 32-bit bit patterns, and a flag word.
pub struct ClientBoundPlayPlayerPosition {
    pub teleport_id: i32,
    pub x_bits: u64,
    pub y_bits: u64,
    pub z_bits: u64,
    pub vel_x_bits: u64,
    pub vel_y_bits: u64,
    pub vel_z_bits: u64,
    pub yaw_bits: u32,
    pub pitch_bits: u32,
    pub flags: i16,
}

impl Default for ClientBoundPlayPlayerPosition {
    fn default() -> (r: Self)
        ensures
            r.teleport_id == 0,
            r.x_bits == 0x4020000000000000,
            r.y_bits == 0x4039000000000000,
            r.z_bits == 0x4020000000000000,
            r.vel_x_bits == 0,
            r.vel_y_bits == 0,
            r.vel_z_bits == 0,
            r.yaw_bits == 0,
            r.pitch_bits == 0,
            r.flags == 0,
    {
        ClientBoundPlayPlayerPosition {
            teleport_id: 0,
            x_bits: 0x4020000000000000,
            y_bits: 0x4039000000000000,
            z_bits: 0x4020000000000000,
            vel_x_bits: 0,
            vel_y_bits: 0,
            vel_z_bits: 0,
            yaw_bits: 0,
            pitch_bits: 0,
            flags: 0,
        }
    }
}

pub open spec fn player_position_body(p: ClientBoundPlayPlayerPosition) -> Seq<u8> {
    varint_enc(u32_of_i32(p.teleport_id)) + be64(p.x_bits) + be64(p.y_bits) + be64(p.z_bits)
        + be64(p.vel_x_bits) + be64(p.vel_y_bits) + be64(p.vel_z_bits) + be32(p.yaw_bits) + be32(
        p.pitch_bits,
    ) + be16(u16_of_i16(p.flags))
}

impl ClientBoundPlayPlayerPosition {
    pub fn id(&self) -> (r: i32)
        ensures
            r == 0x42,
    {
        0x42
    }

    pub fn encode(&self, buf: &mut ByteBuf)
        ensures
            final(buf).data@ == old(buf).data@ + player_position_body(*self),
            final(buf).read_offset == old(buf).read_offset,
    {
        buf.write_varint(self.teleport_id);
        buf.write_u64(self.x_bits);
        buf.write_u64(self.y_bits);
        buf.write_u64(self.z_bits);
        buf.write_u64(self.vel_x_bits);
        buf.write_u64(self.vel_y_bits);
        buf.write_u64(self.vel_z_bits);
        buf.write_u32(self.yaw_bits);
        buf.write_u32(self.pitch_bits);
        buf.write_i16(self.flags);
        proof {
            assert(buf.data@ =~= old(buf).data@ + player_position_body(*self));
        }
    }
}

} // verus!
