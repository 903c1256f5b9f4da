use mcproto::bytebuf::ByteBuf;
use mcproto::engine::{
    framed_packet_bytes, packet_fits, read_complete, ClientBoundPacket, ServerContent, Session,
};
use mcproto::packet::PacketStatus;
use mcproto::login::ServerBoundLoginStartPacket;
use mcproto::packet::ClientBoundPlayKeepAlivePacket;
use mcproto::play::ClientBoundPlayChunkDataPacket;
use mcproto::status::{
    ClientBoundStatusResponsePacket, ServerStatusResponse, ServerStatusResponseDescription,
    ServerStatusResponsePlayers, ServerStatusResponsePlayersSample, ServerStatusResponseVersion,
};
use mcproto::wire::WireError;

/// A frame's content: the packet id as a VarInt, then the payload bytes.
fn frame_content(id: i32, payload: &[u8]) -> ByteBuf {
    let mut buf = ByteBuf::new();
    buf.write_varint(id);
    buf.write_buf(payload);
    buf
}

fn handshake_payload(protocol: i32, addr: &str, port: u16, next_state: i32) -> Vec<u8> {
    let mut buf = ByteBuf::new();
    buf.write_varint(protocol);
    buf.write_string(addr);
    buf.write_u16(port);
    buf.write_varint(next_state);
    buf.read_all()
}

#[test]
fn handshake_next_state_status_goes_to_status() {
    let mut session = Session::new();
    let payload = handshake_payload(769, "localhost", 25565, 1);
    let mut buf = frame_content(0x00, &payload);
    let reaction = read_complete(session.state, &mut buf, ServerContent::default()).unwrap();
    let outbound = session.apply(reaction);
    assert!(matches!(session.state, PacketStatus::Status));
    assert!(!matches!(session.state, PacketStatus::Login));
    assert_eq!(outbound.len(), 0);
}

#[test]
fn handshake_next_state_login_goes_to_login() {
    let mut session = Session::new();
    let payload = handshake_payload(769, "localhost", 25565, 2);
    let mut buf = frame_content(0x00, &payload);
    let reaction = read_complete(session.state, &mut buf, ServerContent::default()).unwrap();
    let outbound = session.apply(reaction);
    assert!(matches!(session.state, PacketStatus::Login));
    assert_eq!(outbound.len(), 0);
}

#[test]
fn handshake_bad_next_state_is_illegal_transition() {
    let session = Session::new();
    let payload = handshake_payload(769, "localhost", 25565, 3);
    let mut buf = frame_content(0x00, &payload);
    let r = read_complete(session.state, &mut buf, ServerContent::default());
    assert_eq!(r.err(), Some(WireError::IllegalPhaseTransition));
}

#[test]
fn status_request_answered_with_summary() {
    let mut buf = frame_content(0x00, &[]);
    let reaction = read_complete(PacketStatus::Status, &mut buf, ServerContent::default())
        .unwrap();
    assert!(matches!(reaction.next_phase, PacketStatus::Status));
    assert_eq!(reaction.outbound.len(), 1);
    match &reaction.outbound[0] {
        ClientBoundPacket::StatusResponse(p) => {
            assert_eq!(p.response.version.name, "1.21.4");
            assert_eq!(p.response.version.protocol, 769);
            assert_eq!(p.response.players.max, 100);
        },
        _ => panic!("unexpected response packet"),
    }
}

#[test]
fn ping_echoes_timestamp() {
    let mut payload = ByteBuf::new();
    payload.write_i64(0x1122334455667788);
    let bytes = payload.read_all();
    let mut buf = frame_content(0x01, &bytes);
    let reaction = read_complete(PacketStatus::Status, &mut buf, ServerContent::default())
        .unwrap();
    assert_eq!(reaction.outbound.len(), 1);
    match &reaction.outbound[0] {
        ClientBoundPacket::PingResponse(p) => assert_eq!(p.timestamp, 0x1122334455667788),
        _ => panic!("expected a pong"),
    }
}

#[test]
fn unknown_id_outside_play_is_fatal() {
    let mut buf = frame_content(0x05, &[]);
    let r = read_complete(PacketStatus::Status, &mut buf, ServerContent::default());
    assert_eq!(r.err(), Some(WireError::UnknownPacketId(1, 5)));

    let mut buf = frame_content(0x09, &[]);
    let r = read_complete(PacketStatus::Login, &mut buf, ServerContent::default());
    assert_eq!(r.err(), Some(WireError::UnknownPacketId(2, 9)));

    let mut buf = frame_content(0x01, &[]);
    let r = read_complete(PacketStatus::Configuration, &mut buf, ServerContent::default());
    assert_eq!(r.err(), Some(WireError::UnknownPacketId(3, 1)));
}

#[test]
fn unknown_id_in_play_is_ignored() {
    let mut buf = frame_content(0x1A, &[1, 2, 3]);
    let reaction = read_complete(PacketStatus::Play, &mut buf, ServerContent::default()).unwrap();
    assert!(matches!(reaction.next_phase, PacketStatus::Play));
    assert_eq!(reaction.outbound.len(), 0);
}

#[test]
fn keep_alive_echoes_payload() {
    let probe: i64 = 0x0102030405060708;
    let mut payload = ByteBuf::new();
    payload.write_i64(probe);
    let bytes = payload.read_all();
    assert_eq!(bytes.len(), 8);
    let mut buf = frame_content(0x27, &bytes);
    let reaction = read_complete(PacketStatus::Play, &mut buf, ServerContent::default()).unwrap();
    assert!(matches!(reaction.next_phase, PacketStatus::Play));
    assert_eq!(reaction.outbound.len(), 1);
    match &reaction.outbound[0] {
        ClientBoundPacket::KeepAlive(p) => assert_eq!(p.id, probe),
        _ => panic!("expected a keep-alive"),
    }
    // the encoded response carries the identical 8-byte payload
    let framed = framed_packet_bytes(&reaction.outbound[0]);
    assert_eq!(framed, vec![0x09, 0x27, 1, 2, 3, 4, 5, 6, 7, 8]);
    assert_eq!(&framed[2..], &bytes[..]);
}

#[test]
fn end_to_end_login_to_play() {
    let mut session = Session::new();
    let the_uuid: u128 = 0x00112233445566778899AABBCCDDEEFF;

    // client: Handshake(next = Login)
    let payload = handshake_payload(769, "localhost", 25565, 2);
    let mut buf = frame_content(0x00, &payload);
    let reaction = read_complete(session.state, &mut buf, ServerContent::default()).unwrap();
    let outbound = session.apply(reaction);
    assert!(matches!(session.state, PacketStatus::Login));
    assert_eq!(outbound.len(), 0);

    // client: Login start ("Alice", uuid)
    let mut payload = ByteBuf::new();
    payload.write_string("Alice");
    payload.write_uuid(the_uuid);
    let bytes = payload.read_all();
    let mut buf = frame_content(0x00, &bytes);
    let reaction = read_complete(session.state, &mut buf, ServerContent::default()).unwrap();
    let outbound = session.apply(reaction);
    assert!(matches!(session.state, PacketStatus::Login));
    let identity = session.identity.as_ref().unwrap();
    assert_eq!(identity.uuid, the_uuid);
    assert_eq!(identity.username, "Alice");
    assert_eq!(outbound.len(), 1);
    match &outbound[0] {
        ClientBoundPacket::LoginSuccess(p) => {
            assert_eq!(p.uuid, the_uuid);
            assert_eq!(p.username, "Alice");
            assert_eq!(p.properties.len(), 1);
            assert_eq!(p.properties[0].name, "textures");
        },
        _ => panic!("expected login success"),
    }

    // client: Login acknowledged
    let mut buf = frame_content(0x03, &[]);
    let reaction = read_complete(session.state, &mut buf, ServerContent::default()).unwrap();
    let outbound = session.apply(reaction);
    assert!(matches!(session.state, PacketStatus::Configuration));
    assert_eq!(outbound.len(), 7);
    assert!(matches!(outbound[0], ClientBoundPacket::KnownPacks(_)));
    for i in 1..6 {
        assert!(matches!(outbound[i], ClientBoundPacket::RegistryData(_)));
    }
    match &outbound[1] {
        ClientBoundPacket::RegistryData(p) => {
            assert_eq!(p.identifier, "minecraft:worldgen/biome");
            assert_eq!(p.entries.len(), 2);
        },
        _ => unreachable!(),
    }
    match &outbound[4] {
        ClientBoundPacket::RegistryData(p) => {
            assert_eq!(p.identifier, "minecraft:damage_type");
            assert_eq!(p.entries.len(), 49);
            assert_eq!(p.entries[0].identifier, "minecraft:arrow");
        },
        _ => unreachable!(),
    }
    assert!(matches!(outbound[6], ClientBoundPacket::FinishConfiguration(_)));

    // client: Configuration acknowledged
    let mut buf = frame_content(0x03, &[]);
    let reaction = read_complete(session.state, &mut buf, ServerContent::default()).unwrap();
    let outbound = session.apply(reaction);
    assert!(matches!(session.state, PacketStatus::Play));
    assert_eq!(outbound.len(), 3);
    assert!(matches!(outbound[0], ClientBoundPacket::PlayLogin(_)));
    assert!(matches!(outbound[1], ClientBoundPacket::SetChunkCenter(_)));
    assert!(matches!(outbound[2], ClientBoundPacket::GameEvent(_)));

    // identity was set once and is never replaced
    let identity = session.identity.as_ref().unwrap();
    assert_eq!(identity.username, "Alice");
}

#[test]
fn status_json_exact_body() {
    let packet = ClientBoundStatusResponsePacket::default();
    let mut buf = ByteBuf::new();
    packet.encode(&mut buf);
    let json = buf.read_string().unwrap();
    assert_eq!(
        json,
        "{\"version\":{\"name\":\"1.21.4\",\"protocol\":769},\"players\":{\"max\":100,\
         \"online\":0,\"sample\":[]},\"description\":{\"text\":\"HANNNNNNNNNN\"},\
         \"enforcesSecureChat\":false}"
    );
}

#[test]
fn status_json_escapes_and_samples() {
    let packet = ClientBoundStatusResponsePacket {
        response: ServerStatusResponse {
            version: ServerStatusResponseVersion { name: "a\"b\\c".to_string(), protocol: -7 },
            players: ServerStatusResponsePlayers {
                max: 20,
                online: 2,
                sample: vec![
                    ServerStatusResponsePlayersSample {
                        name: "n1".to_string(),
                        id: "i1".to_string(),
                    },
                    ServerStatusResponsePlayersSample {
                        name: "n\n2".to_string(),
                        id: "i2".to_string(),
                    },
                ],
            },
            description: ServerStatusResponseDescription { text: "hi".to_string() },
            enforces_secure_chat: true,
        },
    };
    let mut buf = ByteBuf::new();
    packet.encode(&mut buf);
    let json = buf.read_string().unwrap();
    assert_eq!(
        json,
        "{\"version\":{\"name\":\"a\\\"b\\\\c\",\"protocol\":-7},\"players\":{\"max\":20,\
         \"online\":2,\"sample\":[{\"name\":\"n1\",\"id\":\"i1\"},{\"name\":\"n\\u000a2\",\
         \"id\":\"i2\"}]},\"description\":{\"text\":\"hi\"},\"enforcesSecureChat\":true}"
    );
}

#[test]
fn default_login_start_uuid_is_version_four() {
    let p = ServerBoundLoginStartPacket::default();
    assert_eq!((p.uuid >> 76) & 0xF, 4);
}

#[test]
fn chunk_data_encodes_empty_masks() {
    let p = ClientBoundPlayChunkDataPacket { chunk_x: 1, chunk_z: -1 };
    let mut buf = ByteBuf::new();
    p.encode(&mut buf);
    assert_eq!(
        buf.data,
        vec![
            0, 0, 0, 1, // chunk x
            0xFF, 0xFF, 0xFF, 0xFF, // chunk z
            0, // empty heightmap tree
            0, 0, // section data, block entities
            0, 0, 0, 0, // the four empty light masks
            0, 0, // the two empty light arrays
        ]
    );
}

#[test]
fn framing_prefixes_length_and_id() {
    let p = ClientBoundPacket::KeepAlive(ClientBoundPlayKeepAlivePacket { id: -1 });
    let framed = framed_packet_bytes(&p);
    assert_eq!(framed[0], 9); // id byte + 8 payload bytes
    assert_eq!(framed[1], 0x27);
    assert_eq!(&framed[2..], &[0xFF; 8]);
    assert_eq!(framed.len(), 10);
}

#[test]
fn every_outbound_packet_fits_a_frame() {
    // login acknowledged: known packs, five registries, finish
    let mut buf = frame_content(0x03, &[]);
    let reaction = read_complete(PacketStatus::Login, &mut buf, ServerContent::default()).unwrap();
    assert_eq!(reaction.outbound.len(), 7);
    for packet in &reaction.outbound {
        assert!(packet_fits(packet));
        assert!(!framed_packet_bytes(packet).is_empty());
    }

    // configuration acknowledged: play login, chunk center, game event
    let mut buf = frame_content(0x03, &[]);
    let reaction = read_complete(PacketStatus::Configuration, &mut buf, ServerContent::default())
        .unwrap();
    for packet in &reaction.outbound {
        assert!(packet_fits(packet));
        assert!(!framed_packet_bytes(packet).is_empty());
    }

    // the status summary with its rendered JSON body
    let mut buf = frame_content(0x00, &[]);
    let reaction = read_complete(PacketStatus::Status, &mut buf, ServerContent::default())
        .unwrap();
    assert!(packet_fits(&reaction.outbound[0]));
}
